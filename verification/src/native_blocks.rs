//! The blocks of a native heap never overlap.

use crate::guest_memory::SpaceModel;
use crate::memory_model::ManagerModel;
use crate::native_heap::{NativeModel, ProcessHandleRecord, ProcessPtrRecord};
use vstd::prelude::*;

verus! {

/// The bytes that a request of a size occupies.
pub open spec fn occupied(size: u32) -> int {
    crate::native_heap::native_size(size)->0 as int
}

/// The manager has a block of a kind at a position. The kinds are fixed
/// blocks, free fixed blocks, master pointers of handles and their blocks, and
/// master pointers of free handles and their blocks.
pub open spec fn has_block(manager: ManagerModel, block: (int, int)) -> bool {
    let native = manager.native->0;
    if block.0 == 0 {
        0 <= block.1 < native.ptrs.len()
    } else if block.0 == 1 {
        0 <= block.1 < native.free_ptrs.len()
    } else if block.0 == 2 {
        0 <= block.1 < manager.records.len()
    } else if block.0 == 3 {
        0 <= block.1 < manager.records.len() && manager.records[block.1].ptr != 0
    } else if block.0 == 4 {
        0 <= block.1 < native.free_handles.len()
    } else {
        block.0 == 5 && 0 <= block.1 < native.free_handles.len() && native.free_handles[block.1].ptr
            != 0
    }
}

/// Where a block starts.
pub open spec fn block_start(manager: ManagerModel, block: (int, int)) -> int {
    let native = manager.native->0;
    if block.0 == 0 {
        native.ptrs[block.1].ptr as int
    } else if block.0 == 1 {
        native.free_ptrs[block.1].ptr as int
    } else if block.0 == 2 {
        manager.records[block.1].handle as int
    } else if block.0 == 3 {
        manager.records[block.1].ptr as int
    } else if block.0 == 4 {
        native.free_handles[block.1].handle as int
    } else {
        native.free_handles[block.1].ptr as int
    }
}

/// The size that a block was requested with.
pub open spec fn block_request(manager: ManagerModel, block: (int, int)) -> u32 {
    let native = manager.native->0;
    if block.0 == 0 {
        native.ptrs[block.1].size
    } else if block.0 == 1 {
        native.free_ptrs[block.1].size
    } else if block.0 == 3 {
        manager.records[block.1].capacity
    } else if block.0 == 5 {
        native.free_handles[block.1].capacity
    } else {
        4
    }
}

/// What follows a block.
pub open spec fn block_end(manager: ManagerModel, block: (int, int)) -> int {
    block_start(manager, block) + occupied(block_request(manager, block))
}

/// A block lies in the heap, below the cursor.
pub open spec fn block_inside(manager: ManagerModel, block: (int, int)) -> bool {
    let heap = manager.native->0.heap;
    &&& crate::native_heap::native_size(block_request(manager, block)) is Some
    &&& heap.heap_base <= block_start(manager, block)
    &&& block_start(manager, block) < block_end(manager, block) <= heap.heap_cursor
}

/// One of two blocks ends before the other starts.
pub open spec fn blocks_separate(manager: ManagerModel, a: (int, int), b: (int, int)) -> bool {
    block_end(manager, a) <= block_start(manager, b) || block_end(manager, b) <= block_start(
        manager,
        a,
    )
}

/// The size of a handle occupies no more than its capacity.
pub open spec fn fits_block(record: ProcessHandleRecord) -> bool {
    &&& crate::native_heap::native_size(record.size) is Some
    &&& crate::native_heap::native_size(record.capacity) is Some
    &&& occupied(record.size) <= occupied(record.capacity)
}

/// Every block lies in the heap, no two overlap, and no handle is larger than
/// its block.
pub open spec fn native_blocks_apart(manager: ManagerModel) -> bool {
    &&& manager.native is Some
    &&& 0 < manager.native->0.heap.heap_base <= manager.native->0.heap.heap_cursor
    &&& forall|i: int|
        0 <= i < manager.records.len() ==> fits_block(#[trigger] manager.records[i])
    &&& forall|i: int|
        0 <= i < manager.native->0.free_handles.len() ==> fits_block(
            #[trigger] manager.native->0.free_handles[i],
        )
    &&& forall|b: (int, int)| #[trigger] has_block(manager, b) ==> block_inside(manager, b)
    &&& forall|b: (int, int), c: (int, int)|
        #![trigger has_block(manager, b), has_block(manager, c)]
        has_block(manager, b) && has_block(manager, c) && b != c ==> blocks_separate(manager, b, c)
}

/// A larger request occupies no less.
pub(crate) proof fn lemma_occupied_grows(smaller: u32, larger: u32)
    requires
        smaller <= larger,
        crate::native_heap::native_size(larger) is Some,
    ensures
        crate::native_heap::native_size(smaller) is Some,
        occupied(smaller) <= occupied(larger),
        16 <= occupied(smaller),
{
    crate::native_heap::lemma_native_size(smaller);
    crate::native_heap::lemma_native_size(larger);
    vstd::arithmetic::div_mod::lemma_div_is_ordered(smaller + 15, larger + 15, 16);
}

/// A block that is placed lies at or after the cursor.
pub(crate) proof fn lemma_bounds_after_cursor(
    exclusions: Seq<(u32, u32)>,
    cursor: u32,
    limit: u32,
    size: u32,
)
    ensures
        crate::native_heap::native_bounds(exclusions, cursor, limit, size) matches Some((start, end))
            ==> cursor <= start && end == start + size,
{
    crate::classic_heap::lemma_round_up(cursor as int, 16);
    crate::native_heap::lemma_bounds_from(
        exclusions,
        crate::classic_heap::round_up(cursor as int, 16),
        limit,
        size,
    );
}

/// Blocks stay apart where each is a part of a block from before or lies
/// behind the old cursor.
pub(crate) proof fn lemma_refit(
    before: ManagerModel,
    after: ManagerModel,
    from: spec_fn((int, int)) -> (int, int),
    fresh: spec_fn((int, int)) -> bool,
)
    requires
        native_blocks_apart(before),
        after.native is Some,
        after.native->0.heap.heap_base == before.native->0.heap.heap_base,
        before.native->0.heap.heap_cursor <= after.native->0.heap.heap_cursor,
        forall|i: int|
            0 <= i < after.records.len() ==> fits_block(#[trigger] after.records[i]),
        forall|i: int|
            0 <= i < after.native->0.free_handles.len() ==> fits_block(
                #[trigger] after.native->0.free_handles[i],
            ),
        forall|b: (int, int)| #[trigger]
            has_block(after, b) ==> if fresh(b) {
                &&& crate::native_heap::native_size(block_request(after, b)) is Some
                &&& before.native->0.heap.heap_cursor <= block_start(after, b)
                &&& block_end(after, b) <= after.native->0.heap.heap_cursor
            } else {
                &&& has_block(before, from(b))
                &&& block_start(after, b) == block_start(before, from(b))
                &&& block_request(after, b) == block_request(before, from(b)) || (
                crate::native_heap::native_size(block_request(after, b)) is Some && occupied(
                    block_request(after, b),
                ) <= occupied(block_request(before, from(b))))
            },
        forall|b: (int, int), c: (int, int)|
            #![trigger has_block(after, b), has_block(after, c)]
            has_block(after, b) && has_block(after, c) && b != c && fresh(b) == fresh(c) ==> if fresh(
                b,
            ) {
                blocks_separate(after, b, c)
            } else {
                from(b) != from(c)
            },
    ensures
        native_blocks_apart(after),
{
    assert forall|b: (int, int)| #[trigger] has_block(after, b) implies block_inside(after, b) by {
        if !fresh(b) {
            assert(block_inside(before, from(b)));
        }
        crate::native_heap::lemma_native_size(block_request(after, b));
    }
    assert forall|b: (int, int), c: (int, int)|
        #![trigger has_block(after, b), has_block(after, c)]
        has_block(after, b) && has_block(after, c) && b != c implies blocks_separate(
        after,
        b,
        c,
    ) by {
        if !fresh(b) {
            assert(block_inside(before, from(b)));
        }
        if !fresh(c) {
            assert(block_inside(before, from(c)));
        }
        if !fresh(b) && !fresh(c) {
            assert(blocks_separate(before, from(b), from(c)));
        }
    }
}

/// Blocks stay apart where only the last block grew.
pub(crate) proof fn lemma_extend(before: ManagerModel, after: ManagerModel, grown: (int, int))
    requires
        native_blocks_apart(before),
        after.native is Some,
        after.native->0.heap.heap_base == before.native->0.heap.heap_base,
        before.native->0.heap.heap_cursor <= after.native->0.heap.heap_cursor,
        has_block(before, grown),
        block_end(before, grown) == before.native->0.heap.heap_cursor,
        block_end(after, grown) == after.native->0.heap.heap_cursor,
        crate::native_heap::native_size(block_request(after, grown)) is Some,
        forall|i: int|
            0 <= i < after.records.len() ==> fits_block(#[trigger] after.records[i]),
        forall|i: int|
            0 <= i < after.native->0.free_handles.len() ==> fits_block(
                #[trigger] after.native->0.free_handles[i],
            ),
        forall|b: (int, int)| #[trigger]
            has_block(after, b) ==> has_block(before, b) && block_start(after, b) == block_start(
                before,
                b,
            ),
        forall|b: (int, int)| #[trigger]
            has_block(after, b) && b != grown ==> block_request(after, b) == block_request(
                before,
                b,
            ),
    ensures
        native_blocks_apart(after),
{
    assert forall|b: (int, int)| #[trigger] has_block(after, b) implies block_inside(after, b) by {
        assert(block_inside(before, b));
        crate::native_heap::lemma_native_size(block_request(after, b));
    }
    assert forall|b: (int, int), c: (int, int)|
        #![trigger has_block(after, b), has_block(after, c)]
        has_block(after, b) && has_block(after, c) && b != c implies blocks_separate(
        after,
        b,
        c,
    ) by {
        assert(block_inside(before, b));
        assert(block_inside(before, c));
        assert(blocks_separate(before, b, c));
    }
}

/// Reporting an error keeps the blocks apart.
pub proof fn reporting_keeps_native_blocks_apart(manager: ManagerModel, error: i16)
    requires
        native_blocks_apart(manager),
    ensures
        native_blocks_apart(manager.mem_error(error)),
{
    lemma_refit(manager, manager.mem_error(error), |b: (int, int)| b, |b: (int, int)| false);
}

/// Where a list lost a position to its last element, each element came from
/// here.
pub open spec fn moved_from(position: int, removed: int, len: int) -> int {
    if position == removed {
        len - 1
    } else {
        position
    }
}

/// Allocating a fixed block keeps the blocks apart. A refused request leaves
/// the manager as it was but for the error.
pub proof fn new_native_ptr_keeps_blocks_apart(
    manager: ManagerModel,
    space: SpaceModel,
    size: u32,
    clear: bool,
)
    requires
        native_blocks_apart(manager),
    ensures
        ({
            let (after, ready, ptr) = manager.new_native_ptr(space, size, clear);
            &&& native_blocks_apart(after)
            &&& ptr == 0 ==> after == manager.mem_error(crate::memory_model::MEM_FULL_ERR) && ready
                == space
            &&& ptr != 0 ==> after.native->0.ptrs == manager.native->0.ptrs.push(
                ProcessPtrRecord { ptr, size },
            )
        }),
{
    let (after, ready, ptr) = manager.new_native_ptr(space, size, clear);
    let native = manager.native->0;
    reporting_keeps_native_blocks_apart(manager, crate::memory_model::MEM_FULL_ERR);
    if let Some(required) = crate::native_heap::native_size(size) {
        let limit = manager.allocation_limit(native.heap.heap_limit);
        crate::native_heap::lemma_native_size(size);
        crate::native_heap::lemma_best_ptr(native.free_ptrs, required, limit, None);
        lemma_bounds_after_cursor(space.exclusions, native.heap.heap_cursor, limit, required);
        if let Some((place, reused, cursor)) = crate::memory_model::place_block(
            native,
            space.exclusions,
            limit,
            required,
            None,
        ) {
            let added = native.ptrs.len() as int;
            let frees = native.free_ptrs.len() as int;
            if reused >= 0 {
                assert(has_block(manager, (1, reused)));
                assert(block_inside(manager, (1, reused)));
            }
            if crate::memory_model::prepared(space, place, required, clear) is Some {
                if reused >= 0 {
                    lemma_refit(
                        manager,
                        after,
                        |b: (int, int)|
                            if b == (0int, added) {
                                (1, reused)
                            } else if b.0 == 1 {
                                (1, moved_from(b.1, reused, frees))
                            } else {
                                b
                            },
                        |b: (int, int)| false,
                    );
                } else {
                    lemma_refit(
                        manager,
                        after,
                        |b: (int, int)| b,
                        |b: (int, int)| b == (0int, added),
                    );
                }
            }
        }
    }
}

/// Disposing of a fixed block keeps the blocks apart.
pub proof fn dispose_native_ptr_keeps_blocks_apart(manager: ManagerModel, ptr: u32)
    requires
        native_blocks_apart(manager),
    ensures
        native_blocks_apart(manager.dispose_native_ptr(ptr).0),
{
    let native = manager.native->0;
    let index = crate::native_heap::ptr_index(native.ptrs, ptr);
    crate::native_heap::lemma_ptr_index(native.ptrs, ptr);
    reporting_keeps_native_blocks_apart(manager, crate::memory_model::NO_ERR);
    if index >= 0 {
        let after = manager.dispose_native_ptr(ptr).0;
        let frees = native.free_ptrs.len() as int;
        lemma_refit(
            manager,
            after,
            |b: (int, int)|
                if b == (1int, frees) {
                    (0, index)
                } else if b.0 == 0 && b.1 >= index {
                    (0, b.1 + 1)
                } else {
                    b
                },
            |b: (int, int)| false,
        );
    }
}

/// A free handle is no live handle.
proof fn lemma_free_handle_is_new(manager: ManagerModel, i: int)
    requires
        native_blocks_apart(manager),
        0 <= i < manager.native->0.free_handles.len(),
    ensures
        crate::native_heap::handle_index(
            manager.records,
            manager.native->0.free_handles[i].handle,
        ) < 0,
{
    let handle = manager.native->0.free_handles[i].handle;
    let index = crate::native_heap::handle_index(manager.records, handle);
    crate::native_heap::lemma_handle_index(manager.records, handle);
    if index >= 0 {
        assert(has_block(manager, (4, i)));
        assert(has_block(manager, (2, index)));
        assert(block_inside(manager, (4, i)));
        assert(blocks_separate(manager, (4, i), (2, index)));
    }
}

/// An address behind the cursor is no handle.
proof fn lemma_address_behind_is_new(manager: ManagerModel, address: u32)
    requires
        native_blocks_apart(manager),
        manager.native->0.heap.heap_cursor <= address,
    ensures
        crate::native_heap::handle_index(manager.records, address) < 0,
{
    let index = crate::native_heap::handle_index(manager.records, address);
    crate::native_heap::lemma_handle_index(manager.records, address);
    if index >= 0 {
        assert(has_block(manager, (2, index)));
        assert(block_inside(manager, (2, index)));
    }
}

/// A handle that was chosen for its block has room for the request.
proof fn lemma_best_handle_fits(free: Seq<ProcessHandleRecord>, required: u32, limit: u32)
    ensures
        crate::native_heap::chosen_handle(free, required, limit) >= 0 && free[crate::native_heap::chosen_handle(
            free,
            required,
            limit,
        )].ptr != 0 ==> crate::native_heap::handle_fits(
            free[crate::native_heap::chosen_handle(free, required, limit)],
            required,
            limit,
        ),
{
    crate::native_heap::lemma_chosen_handle(free, required, limit);
}

/// The manager after a chosen handle was taken.
pub open spec fn handle_taken(
    manager: ManagerModel,
    record: ProcessHandleRecord,
    reused: int,
    block: int,
    cursor: u32,
) -> ManagerModel {
    let taken = crate::memory_model::block_taken(manager.native->0, block, cursor);
    ManagerModel {
        native: Some(
            NativeModel {
                free_handles: if reused >= 0 {
                    crate::classic_heap::swap_removed(taken.free_handles, reused)
                } else {
                    taken.free_handles
                },
                ..taken
            },
        ),
        records: manager.records.push(record),
        ..manager
    }
}

/// A free handle that gets a free block keeps the blocks apart.
#[verifier::rlimit(30)]
proof fn lemma_filled_handle_keeps_blocks_apart(
    manager: ManagerModel,
    record: ProcessHandleRecord,
    reused: int,
    block: int,
)
    requires
        native_blocks_apart(manager),
        0 <= reused < manager.native->0.free_handles.len(),
        manager.native->0.free_handles[reused].ptr == 0,
        record.handle == manager.native->0.free_handles[reused].handle,
        record.size == record.capacity,
        crate::native_heap::native_size(record.size) is Some,
        0 <= block < manager.native->0.free_ptrs.len(),
        record.ptr == manager.native->0.free_ptrs[block].ptr,
        occupied(record.size) <= occupied(manager.native->0.free_ptrs[block].size),
    ensures
        native_blocks_apart(
            handle_taken(manager, record, reused, block, manager.native->0.heap.heap_cursor),
        ),
        record.ptr != 0,
{
    let native = manager.native->0;
    let after = handle_taken(manager, record, reused, block, native.heap.heap_cursor);
    let added = manager.records.len() as int;
    let frees = native.free_ptrs.len() as int;
    let handles = native.free_handles.len() as int;
    assert(has_block(manager, (1, block)));
    assert(block_inside(manager, (1, block)));
    lemma_refit(
        manager,
        after,
        |b: (int, int)|
            if b == (2int, added) {
                (4, reused)
            } else if b == (3int, added) {
                (1, block)
            } else if b.0 == 1 {
                (1, moved_from(b.1, block, frees))
            } else if b.0 == 4 || b.0 == 5 {
                (b.0, moved_from(b.1, reused, handles))
            } else {
                b
            },
        |b: (int, int)| false,
    );
}

/// A free handle that gets a block behind the cursor keeps the blocks apart.
proof fn lemma_extended_handle_keeps_blocks_apart(
    manager: ManagerModel,
    record: ProcessHandleRecord,
    reused: int,
    cursor: u32,
)
    requires
        native_blocks_apart(manager),
        0 <= reused < manager.native->0.free_handles.len(),
        manager.native->0.free_handles[reused].ptr == 0,
        record.handle == manager.native->0.free_handles[reused].handle,
        record.size == record.capacity,
        crate::native_heap::native_size(record.size) is Some,
        manager.native->0.heap.heap_cursor <= record.ptr,
        record.ptr + occupied(record.size) <= cursor,
    ensures
        native_blocks_apart(handle_taken(manager, record, reused, -1, cursor)),
        record.ptr != 0,
{
    let native = manager.native->0;
    let after = handle_taken(manager, record, reused, -1, cursor);
    let added = manager.records.len() as int;
    let handles = native.free_handles.len() as int;
    lemma_refit(
        manager,
        after,
        |b: (int, int)|
            if b == (2int, added) {
                (4, reused)
            } else if b.0 == 4 || b.0 == 5 {
                (b.0, moved_from(b.1, reused, handles))
            } else {
                b
            },
        |b: (int, int)| b == (3int, added),
    );
}

/// A free handle that is taken with its block keeps the blocks apart.
proof fn lemma_reused_handle_keeps_blocks_apart(
    manager: ManagerModel,
    record: ProcessHandleRecord,
    reused: int,
)
    requires
        native_blocks_apart(manager),
        0 <= reused < manager.native->0.free_handles.len(),
        manager.native->0.free_handles[reused].ptr != 0,
        record == (ProcessHandleRecord {
            size: record.size,
            ..manager.native->0.free_handles[reused]
        }),
        fits_block(record),
    ensures
        native_blocks_apart(
            handle_taken(manager, record, reused, -1, manager.native->0.heap.heap_cursor),
        ),
{
    let native = manager.native->0;
    let after = handle_taken(manager, record, reused, -1, native.heap.heap_cursor);
    let added = manager.records.len() as int;
    let handles = native.free_handles.len() as int;
    lemma_refit(
        manager,
        after,
        |b: (int, int)|
            if b == (2int, added) {
                (4, reused)
            } else if b == (3int, added) {
                (5, reused)
            } else if b.0 == 4 || b.0 == 5 {
                (b.0, moved_from(b.1, reused, handles))
            } else {
                b
            },
        |b: (int, int)| false,
    );
}

/// A new handle behind the cursor keeps the blocks apart.
proof fn lemma_fresh_handle_keeps_blocks_apart(
    manager: ManagerModel,
    record: ProcessHandleRecord,
    cursor: u32,
)
    requires
        native_blocks_apart(manager),
        record.size == record.capacity,
        crate::native_heap::native_size(record.size) is Some,
        manager.native->0.heap.heap_cursor <= record.handle,
        record.handle + 16 <= record.ptr,
        record.ptr + occupied(record.size) <= cursor,
    ensures
        native_blocks_apart(handle_taken(manager, record, -1, -1, cursor)),
{
    let after = handle_taken(manager, record, -1, -1, cursor);
    let added = manager.records.len() as int;
    crate::native_heap::lemma_native_size(record.size);
    lemma_refit(
        manager,
        after,
        |b: (int, int)| b,
        |b: (int, int)| b == (2int, added) || b == (3int, added),
    );
}

/// Taking a chosen handle keeps the blocks apart.
pub(crate) proof fn lemma_chosen_handle_keeps_blocks_apart(
    manager: ManagerModel,
    exclusions: Seq<(u32, u32)>,
    size: u32,
    required: u32,
)
    requires
        native_blocks_apart(manager),
        crate::native_heap::native_size(size) == Some(required),
        manager.choose_handle(manager.native->0, exclusions, size, required) is Some,
    ensures
        ({
            let (record, reused, block, cursor) = manager.choose_handle(
                manager.native->0,
                exclusions,
                size,
                required,
            )->0;
            &&& native_blocks_apart(handle_taken(manager, record, reused, block, cursor))
            &&& record.handle != 0
            &&& record.ptr != 0
            &&& record.size == size
            &&& crate::native_heap::handle_index(manager.records, record.handle) < 0
        }),
{
    let native = manager.native->0;
    let limit = manager.allocation_limit(native.heap.heap_limit);
    let (record, reused, block, cursor) = manager.choose_handle(native, exclusions, size, required)->0;
    crate::native_heap::lemma_native_size(size);
    crate::native_heap::lemma_chosen_handle(native.free_handles, required, limit);
    crate::native_heap::lemma_best_ptr(native.free_ptrs, required, limit, None);
    lemma_bounds_after_cursor(exclusions, native.heap.heap_cursor, limit, required);
    lemma_bounds_after_cursor(exclusions, native.heap.heap_cursor, limit, 16);
    if reused >= 0 {
        lemma_free_handle_is_new(manager, reused);
        let chosen = native.free_handles[reused];
        assert(has_block(manager, (4, reused)));
        assert(block_inside(manager, (4, reused)));
        if chosen.ptr == 0 {
            if block >= 0 {
                lemma_filled_handle_keeps_blocks_apart(manager, record, reused, block);
            } else {
                lemma_extended_handle_keeps_blocks_apart(manager, record, reused, cursor);
            }
        } else {
            lemma_best_handle_fits(native.free_handles, required, limit);
            lemma_reused_handle_keeps_blocks_apart(manager, record, reused);
        }
    } else {
        let (handle, after_handle) = crate::native_heap::native_bounds(
            exclusions,
            native.heap.heap_cursor,
            limit,
            16,
        )->0;
        lemma_bounds_after_cursor(exclusions, after_handle, limit, required);
        lemma_address_behind_is_new(manager, handle);
        lemma_fresh_handle_keeps_blocks_apart(manager, record, cursor);
    }
}

/// Blocks stay apart where the lists of blocks and the cursor stay.
pub(crate) proof fn lemma_same_blocks(before: ManagerModel, after: ManagerModel)
    requires
        native_blocks_apart(before),
        after.records == before.records,
        after.native is Some,
        after.native->0.ptrs == before.native->0.ptrs,
        after.native->0.free_ptrs == before.native->0.free_ptrs,
        after.native->0.free_handles == before.native->0.free_handles,
        after.native->0.heap.heap_base == before.native->0.heap.heap_base,
        after.native->0.heap.heap_cursor == before.native->0.heap.heap_cursor,
    ensures
        native_blocks_apart(after),
{
    lemma_refit(before, after, |b: (int, int)| b, |b: (int, int)| false);
}

/// Allocating a handle keeps the blocks apart, and the handle is new. A
/// refused request leaves the manager as it was but for the error.
pub proof fn new_native_handle_keeps_blocks_apart(
    manager: ManagerModel,
    space: SpaceModel,
    size: u32,
    clear: bool,
)
    requires
        native_blocks_apart(manager),
    ensures
        ({
            let (after, ready, handle) = manager.allocate_native_handle(space, size, clear);
            &&& native_blocks_apart(after)
            &&& handle == 0 ==> after == manager.mem_error(crate::memory_model::MEM_FULL_ERR)
            &&& handle != 0 ==> {
                &&& manager.record(handle) is None
                &&& after.records.len() == manager.records.len() + 1
                &&& after.records.drop_last() == manager.records
                &&& after.records.last().handle == handle
                &&& after.records.last().ptr != 0
                &&& after.records.last().size == size
                &&& after.record(handle) == Some(after.records.last())
            }
        }),
{
    let (after, ready, handle) = manager.allocate_native_handle(space, size, clear);
    reporting_keeps_native_blocks_apart(manager, crate::memory_model::MEM_FULL_ERR);
    if let Some(required) = crate::native_heap::native_size(size) {
        if let Some((record, reused, block, cursor)) = manager.choose_handle(
            manager.native->0,
            space.exclusions,
            size,
            required,
        ) {
            lemma_chosen_handle_keeps_blocks_apart(manager, space.exclusions, size, required);
            if handle != 0 {
                lemma_same_blocks(
                    handle_taken(manager, record, reused, block, cursor),
                    after,
                );
                assert(after.records =~= manager.records.push(record));
                assert(after.records.drop_last() =~= manager.records);
            }
        }
    }
}

/// Disposing of a handle keeps the blocks apart, and the handle is forgotten.
/// A refused request leaves the manager as it was but for the error.
pub proof fn dispose_native_handle_keeps_blocks_apart(
    manager: ManagerModel,
    space: SpaceModel,
    handle: u32,
)
    requires
        native_blocks_apart(manager),
    ensures
        ({
            let (after, left, disposed) = manager.dispose_native_handle(space, handle);
            &&& native_blocks_apart(after)
            &&& disposed matches Some(record) ==> {
                &&& manager.record(handle) == Some(record)
                &&& after.record(handle) is None
                &&& after.state(handle) is None
                &&& !after.ptr_to_handle.dom().contains(record.ptr) || record.ptr == 0
                &&& left.word(handle as int) == Some(0u32)
            }
            &&& disposed is None ==> left == space && exists|error: i16|
                after == #[trigger] manager.mem_error(error)
        }),
{
    let (after, left, disposed) = manager.dispose_native_handle(space, handle);
    let native = manager.native->0;
    let index = crate::native_heap::handle_index(manager.records, handle);
    crate::native_heap::lemma_handle_index(manager.records, handle);
    reporting_keeps_native_blocks_apart(manager, crate::memory_model::NO_ERR);
    reporting_keeps_native_blocks_apart(manager, crate::memory_model::NIL_HANDLE_ERR);
    if let Some(record) = disposed {
        let handles = native.free_handles.len() as int;
        lemma_refit(
            manager,
            after,
            |b: (int, int)|
                if b == (4int, handles) {
                    (2, index)
                } else if b == (5int, handles) {
                    (3, index)
                } else if (b.0 == 2 || b.0 == 3) && b.1 >= index {
                    (b.0, b.1 + 1)
                } else {
                    b
                },
            |b: (int, int)| false,
        );
        lemma_free_handle_is_new(after, handles);
        crate::guest_memory::written_word_is_read_back(space, handle as int, 0);
    }
}

/// Emptying a handle keeps the blocks apart; its block is free and the handle
/// stays.
pub proof fn empty_native_keeps_blocks_apart(
    manager: ManagerModel,
    space: SpaceModel,
    handle: u32,
)
    requires
        native_blocks_apart(manager),
    ensures
        ({
            let (after, left, error) = manager.empty_native(space, handle);
            &&& native_blocks_apart(after)
            &&& error != 0 ==> after == manager.mem_error(error) && left == space
            &&& error == 0 ==> after.record(handle) == Some(
                ProcessHandleRecord { handle, ptr: 0, size: 0, capacity: 0 },
            )
        }),
{
    let (after, left, error) = manager.empty_native(space, handle);
    let native = manager.native->0;
    let index = crate::native_heap::handle_index(manager.records, handle);
    crate::native_heap::lemma_handle_index(manager.records, handle);
    reporting_keeps_native_blocks_apart(manager, crate::memory_model::NIL_HANDLE_ERR);
    reporting_keeps_native_blocks_apart(manager, crate::memory_model::MEM_PUR_ERR);
    if error == 0 {
        let record = manager.records[index];
        let frees = native.free_ptrs.len() as int;
        let emptied = ProcessHandleRecord { handle, ptr: 0, size: 0, capacity: 0 };
        assert(after.records == manager.records.update(index, emptied));
        crate::native_heap::lemma_native_size(0);
        lemma_refit(
            manager,
            after,
            |b: (int, int)|
                if b == (1int, frees) {
                    (3, index)
                } else {
                    b
                },
            |b: (int, int)| false,
        );
        lemma_updated_record(manager.records, index, emptied);
    }
}

/// A record that is replaced under its handle is found under it.
pub(crate) proof fn lemma_updated_record(
    records: Seq<ProcessHandleRecord>,
    index: int,
    record: ProcessHandleRecord,
)
    requires
        index >= 0,
        index == crate::native_heap::handle_index(records, record.handle),
    ensures
        crate::native_heap::handle_index(records.update(index, record), record.handle) == index,
    decreases records.len(),
{
    crate::native_heap::lemma_handle_index(records, record.handle);
    let updated = records.update(index, record);
    if index == records.len() - 1 {
        assert(updated.drop_last() =~= records.drop_last());
    } else {
        assert(updated.drop_last() =~= records.drop_last().update(index, record));
        lemma_updated_record(records.drop_last(), index, record);
    }
}

} // verus!
