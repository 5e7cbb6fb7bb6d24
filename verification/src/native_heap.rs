//! The native process heap: its records, block sizes and the choice of blocks.

use crate::guest_memory::find_overlap_end;
use vstd::prelude::*;

verus! {

/// Native blocks start and end on this boundary.
pub const NATIVE_HEAP_ALIGNMENT: u32 = 16;

/// A relocatable block: the handle, the block it points to, its logical size
/// and the size it may take without moving.
#[derive(Debug, Clone, Copy, PartialEq, Eq, Structural)]
pub struct ProcessHandleRecord {
    pub handle: u32,
    pub ptr: u32,
    pub size: u32,
    pub capacity: u32,
}

/// A nonrelocatable block.
#[derive(Debug, Clone, Copy, PartialEq, Eq, Structural)]
pub struct ProcessPtrRecord {
    pub ptr: u32,
    pub size: u32,
}

/// The properties of a relocatable block.
#[derive(Debug, Clone, Copy, PartialEq, Eq, Structural)]
pub struct ProcessHandleStateRecord {
    pub handle: u32,
    pub locked: bool,
    pub high_locked: bool,
    pub no_purge: bool,
    pub resource: bool,
}

/// Bounds and error state of the native heap.
#[derive(Debug, Clone, Copy, PartialEq, Eq, Structural)]
pub struct ProcessNativeHeapState {
    pub heap_base: u32,
    pub heap_cursor: u32,
    pub heap_limit: u32,
    pub last_mem_error: i16,
    pub heap_maximized: bool,
    pub master_pointer_blocks_requested: u32,
}

/// The native heap's bookkeeping.
#[derive(Debug, PartialEq, Eq)]
pub struct ProcessNativeAllocatorState {
    pub initial_heap: ProcessNativeHeapState,
    pub heap: ProcessNativeHeapState,
    pub ptrs: Vec<ProcessPtrRecord>,
    pub free_ptr_blocks: Vec<ProcessPtrRecord>,
    pub free_handle_blocks: Vec<ProcessHandleRecord>,
}

/// What the native heap's bookkeeping holds.
#[verifier::ext_equal]
pub struct NativeModel {
    pub initial_heap: ProcessNativeHeapState,
    pub heap: ProcessNativeHeapState,
    pub ptrs: Seq<ProcessPtrRecord>,
    pub free_ptrs: Seq<ProcessPtrRecord>,
    pub free_handles: Seq<ProcessHandleRecord>,
}

impl View for ProcessNativeAllocatorState {
    type V = NativeModel;

    open spec fn view(&self) -> NativeModel {
        NativeModel {
            initial_heap: self.initial_heap,
            heap: self.heap,
            ptrs: self.ptrs@,
            free_ptrs: self.free_ptr_blocks@,
            free_handles: self.free_handle_blocks@,
        }
    }
}

pub(crate) fn copy_ptr_records(records: &[ProcessPtrRecord]) -> (copy: Vec<ProcessPtrRecord>)
    ensures
        copy@ == records@,
{
    let mut copy: Vec<ProcessPtrRecord> = Vec::new();
    let mut i: usize = 0;
    while i < records.len()
        invariant
            i <= records@.len(),
            copy@ == records@.take(i as int),
        decreases records@.len() - i,
    {
        copy.push(records[i]);
        assert(copy@ =~= records@.take(i + 1));
        i += 1;
    }
    assert(records@.take(i as int) =~= records@);
    copy
}

pub(crate) fn copy_handle_records(records: &[ProcessHandleRecord]) -> (copy: Vec<
    ProcessHandleRecord,
>)
    ensures
        copy@ == records@,
{
    let mut copy: Vec<ProcessHandleRecord> = Vec::new();
    let mut i: usize = 0;
    while i < records.len()
        invariant
            i <= records@.len(),
            copy@ == records@.take(i as int),
        decreases records@.len() - i,
    {
        copy.push(records[i]);
        assert(copy@ =~= records@.take(i + 1));
        i += 1;
    }
    assert(records@.take(i as int) =~= records@);
    copy
}

impl ProcessNativeAllocatorState {
    /// Bookkeeping of its own with the same contents.
    pub fn snapshot(&self) -> (copy: Self)
        ensures
            copy@ == self@,
    {
        ProcessNativeAllocatorState {
            initial_heap: self.initial_heap,
            heap: self.heap,
            ptrs: copy_ptr_records(self.ptrs.as_slice()),
            free_ptr_blocks: copy_ptr_records(self.free_ptr_blocks.as_slice()),
            free_handle_blocks: copy_handle_records(self.free_handle_blocks.as_slice()),
        }
    }
}

/// Capacity of the native block that serves a request.
pub open spec fn native_size(size: u32) -> Option<u32> {
    if size + 15 > u32::MAX {
        None
    } else if size == 0 {
        Some(16)
    } else {
        Some(crate::classic_heap::round_up(size as int, 16) as u32)
    }
}

pub proof fn lemma_native_size(size: u32)
    ensures
        native_size(size) matches Some(capacity) ==> size <= capacity && 16 <= capacity && capacity
            % 16 == 0 && capacity < size + 17,
{
    crate::classic_heap::lemma_round_up(size as int, 16);
}

pub fn native_allocation_size(size: u32) -> (capacity: Option<u32>)
    ensures
        capacity == native_size(size),
{
    proof {
        crate::classic_heap::lemma_round_up(size as int, 16);
    }
    match size.checked_add(15) {
        Some(sum) => {
            let rounded: u32 = sum / 16 * 16;
            if rounded < 16 {
                Some(16)
            } else {
                Some(rounded)
            }
        },
        None => None,
    }
}

/// Where a block of `size` bytes fits at or after `ptr`, stepping over
/// excluded ranges and ending below `limit`: the block and what follows it.
pub open spec fn bounds_from(
    exclusions: Seq<(u32, u32)>,
    ptr: int,
    limit: u32,
    size: u32,
) -> Option<(u32, u32)>
    decreases u32::MAX - ptr,
    via bounds_from_decreases
{
    if ptr + size > u32::MAX || ptr + size >= limit {
        None
    } else {
        match crate::guest_memory::overlap_end(exclusions, ptr, size as int) {
            None => Some((ptr as u32, (ptr + size) as u32)),
            Some(end) => if end + 15 > u32::MAX {
                None
            } else {
                bounds_from(exclusions, crate::classic_heap::round_up(end as int, 16), limit, size)
            },
        }
    }
}

#[via_fn]
proof fn bounds_from_decreases(exclusions: Seq<(u32, u32)>, ptr: int, limit: u32, size: u32) {
    crate::guest_memory::lemma_overlap_end_after(exclusions, ptr, size as int);
    if let Some(end) = crate::guest_memory::overlap_end(exclusions, ptr, size as int) {
        crate::classic_heap::lemma_round_up(end as int, 16);
    }
}

/// Where a block fits at or after the cursor.
pub open spec fn native_bounds(
    exclusions: Seq<(u32, u32)>,
    cursor: u32,
    limit: u32,
    size: u32,
) -> Option<(u32, u32)> {
    if cursor + 15 > u32::MAX {
        None
    } else {
        bounds_from(exclusions, crate::classic_heap::round_up(cursor as int, 16), limit, size)
    }
}

/// A placed block starts at or after the position asked for, is aligned, ends
/// below the limit and meets no excluded range.
pub proof fn lemma_bounds_from(exclusions: Seq<(u32, u32)>, ptr: int, limit: u32, size: u32)
    requires
        ptr % 16 == 0,
        0 <= ptr,
    ensures
        bounds_from(exclusions, ptr, limit, size) matches Some((start, end)) ==> ptr <= start
            && start % 16 == 0 && end == start + size && end < limit && crate::guest_memory::overlap_end(
            exclusions,
            start as int,
            size as int,
        ) is None,
    decreases u32::MAX - ptr,
{
    if ptr + size <= u32::MAX && ptr + size < limit {
        crate::guest_memory::lemma_overlap_end_after(exclusions, ptr, size as int);
        if let Some(end) = crate::guest_memory::overlap_end(exclusions, ptr, size as int) {
            if end + 15 <= u32::MAX {
                crate::classic_heap::lemma_round_up(end as int, 16);
                lemma_bounds_from(exclusions, crate::classic_heap::round_up(end as int, 16), limit, size);
            }
        }
    }
}

pub fn native_allocation_bounds(
    exclusions: &Vec<(u32, u32)>,
    heap_cursor: u32,
    heap_limit: u32,
    aligned_size: u32,
) -> (placed: Option<(u32, u32)>)
    ensures
        placed == native_bounds(exclusions@, heap_cursor, heap_limit, aligned_size),
{
    proof {
        crate::classic_heap::lemma_round_up(heap_cursor as int, 16);
    }
    let mut ptr: u32 = match heap_cursor.checked_add(15) {
        Some(sum) => sum / 16 * 16,
        None => {
            return None;
        },
    };
    loop
        invariant
            native_bounds(exclusions@, heap_cursor, heap_limit, aligned_size) == bounds_from(
                exclusions@,
                ptr as int,
                heap_limit,
                aligned_size,
            ),
        decreases u32::MAX - ptr,
    {
        let next: u32 = match ptr.checked_add(aligned_size) {
            Some(next) => next,
            None => {
                return None;
            },
        };
        if next >= heap_limit {
            return None;
        }
        proof {
            crate::guest_memory::lemma_overlap_end_after(exclusions@, ptr as int, aligned_size as int);
        }
        match find_overlap_end(exclusions, ptr, aligned_size) {
            None => {
                return Some((ptr, next));
            },
            Some(end) => {
                proof {
                    crate::classic_heap::lemma_round_up(end as int, 16);
                }
                match end.checked_add(15) {
                    Some(sum) => {
                        ptr = sum / 16 * 16;
                    },
                    None => {
                        return None;
                    },
                }
            },
        }
    }
}

/// Whether a free block serves a request of `required` bytes below `limit`.
pub open spec fn ptr_fits(
    record: ProcessPtrRecord,
    required: u32,
    limit: u32,
    avoid: Option<u32>,
) -> bool {
    &&& avoid != Some(record.ptr)
    &&& native_size(record.size) is Some
    &&& native_size(record.size)->0 >= required
    &&& record.ptr + native_size(record.size)->0 <= limit
}

/// Position of the first least free block that serves a request, or a
/// negative number.
pub open spec fn best_ptr(
    free: Seq<ProcessPtrRecord>,
    required: u32,
    limit: u32,
    avoid: Option<u32>,
) -> int
    decreases free.len(),
{
    if free.len() == 0 {
        -1
    } else {
        let before = best_ptr(free.drop_last(), required, limit, avoid);
        if !ptr_fits(free.last(), required, limit, avoid) {
            before
        } else if before < 0 || native_size(free.last().size)->0 < native_size(
            free[before].size,
        )->0 {
            free.len() - 1
        } else {
            before
        }
    }
}

/// The chosen block fits, and no block that fits is smaller.
pub proof fn lemma_best_ptr(
    free: Seq<ProcessPtrRecord>,
    required: u32,
    limit: u32,
    avoid: Option<u32>,
)
    ensures
        best_ptr(free, required, limit, avoid) < free.len(),
        best_ptr(free, required, limit, avoid) >= 0 ==> ptr_fits(
            free[best_ptr(free, required, limit, avoid)],
            required,
            limit,
            avoid,
        ),
        forall|i: int|
            0 <= i < free.len() && ptr_fits(#[trigger] free[i], required, limit, avoid)
                ==> best_ptr(free, required, limit, avoid) >= 0 && native_size(
                free[best_ptr(free, required, limit, avoid)].size,
            )->0 <= native_size(free[i].size)->0,
    decreases free.len(),
{
    if free.len() > 0 {
        let rest = free.drop_last();
        lemma_best_ptr(rest, required, limit, avoid);
        assert forall|i: int|
            0 <= i < free.len() && ptr_fits(
                #[trigger] free[i],
                required,
                limit,
                avoid,
            ) implies best_ptr(free, required, limit, avoid) >= 0 && native_size(
            free[best_ptr(free, required, limit, avoid)].size,
        )->0 <= native_size(free[i].size)->0 by {
            if i < rest.len() {
                assert(rest[i] == free[i]);
            }
        }
    }
}

pub(crate) fn find_best_ptr(
    free: &Vec<ProcessPtrRecord>,
    required: u32,
    limit: u32,
    avoid: Option<u32>,
) -> (found: Option<usize>)
    ensures
        match found {
            Some(i) => i < free@.len() && i == best_ptr(free@, required, limit, avoid),
            None => best_ptr(free@, required, limit, avoid) < 0,
        },
{
    let mut best: Option<usize> = None;
    let mut best_capacity: u32 = 0;
    let mut i: usize = 0;
    while i < free.len()
        invariant
            i <= free@.len(),
            match best {
                Some(b) => {
                    &&& b < i
                    &&& b == best_ptr(free@.take(i as int), required, limit, avoid)
                    &&& native_size(free@[b as int].size) == Some(best_capacity)
                },
                None => best_ptr(free@.take(i as int), required, limit, avoid) < 0,
            },
        decreases free@.len() - i,
    {
        let record = free[i];
        assert(free@.take(i + 1).drop_last() =~= free@.take(i as int));
        assert(free@.take(i + 1).last() == record);
        let avoided = match avoid {
            Some(ptr) => ptr == record.ptr,
            None => false,
        };
        if let Some(capacity) = native_allocation_size(record.size) {
            if !avoided && capacity >= required && record.ptr <= limit && capacity <= limit
                - record.ptr {
                let better = match best {
                    Some(_) => capacity < best_capacity,
                    None => true,
                };
                if better {
                    best = Some(i);
                    best_capacity = capacity;
                }
            }
        }
        i += 1;
    }
    assert(free@.take(i as int) =~= free@);
    best
}

/// Whether a free handle with a block of its own serves a request.
pub open spec fn handle_fits(record: ProcessHandleRecord, required: u32, limit: u32) -> bool {
    &&& record.ptr != 0
    &&& record.handle + 16 <= u32::MAX
    &&& record.handle + 16 <= limit
    &&& native_size(record.capacity) is Some
    &&& native_size(record.capacity)->0 >= required
    &&& record.ptr + native_size(record.capacity)->0 <= limit
}

/// Whether a free handle without a block lies below the limit.
pub open spec fn handle_empty(record: ProcessHandleRecord, limit: u32) -> bool {
    record.ptr == 0 && record.handle + 16 <= limit
}

/// Position of the first free handle whose block is the least that serves a
/// request, or a negative number.
pub open spec fn best_handle(free: Seq<ProcessHandleRecord>, required: u32, limit: u32) -> int
    decreases free.len(),
{
    if free.len() == 0 {
        -1
    } else {
        let before = best_handle(free.drop_last(), required, limit);
        if !handle_fits(free.last(), required, limit) {
            before
        } else if before < 0 || native_size(free.last().capacity)->0 < native_size(
            free[before].capacity,
        )->0 {
            free.len() - 1
        } else {
            before
        }
    }
}

/// Position of the first free handle without a block, or a negative number.
pub open spec fn empty_handle(free: Seq<ProcessHandleRecord>, limit: u32) -> int
    decreases free.len(),
{
    if free.len() == 0 {
        -1
    } else {
        let before = empty_handle(free.drop_last(), limit);
        if before >= 0 {
            before
        } else if handle_empty(free.last(), limit) {
            free.len() - 1
        } else {
            -1
        }
    }
}

/// The free handle that a request takes.
pub open spec fn chosen_handle(free: Seq<ProcessHandleRecord>, required: u32, limit: u32) -> int {
    if best_handle(free, required, limit) >= 0 {
        best_handle(free, required, limit)
    } else {
        empty_handle(free, limit)
    }
}

pub proof fn lemma_chosen_handle(free: Seq<ProcessHandleRecord>, required: u32, limit: u32)
    ensures
        chosen_handle(free, required, limit) < free.len(),
        best_handle(free, required, limit) >= 0 ==> best_handle(free, required, limit) < free.len()
            && handle_fits(free[best_handle(free, required, limit)], required, limit),
        empty_handle(free, limit) >= 0 ==> empty_handle(free, limit) < free.len() && handle_empty(
            free[empty_handle(free, limit)],
            limit,
        ),
    decreases free.len(),
{
    if free.len() > 0 {
        lemma_chosen_handle(free.drop_last(), required, limit);
    }
}

pub(crate) fn find_chosen_handle(
    free: &Vec<ProcessHandleRecord>,
    required: u32,
    limit: u32,
) -> (found: Option<usize>)
    ensures
        match found {
            Some(i) => i < free@.len() && i == chosen_handle(free@, required, limit),
            None => chosen_handle(free@, required, limit) < 0,
        },
{
    let mut best: Option<usize> = None;
    let mut best_capacity: u32 = 0;
    let mut empty: Option<usize> = None;
    let mut i: usize = 0;
    while i < free.len()
        invariant
            i <= free@.len(),
            match best {
                Some(b) => {
                    &&& b < i
                    &&& b == best_handle(free@.take(i as int), required, limit)
                    &&& native_size(free@[b as int].capacity) == Some(best_capacity)
                },
                None => best_handle(free@.take(i as int), required, limit) < 0,
            },
            match empty {
                Some(e) => e < i && e == empty_handle(free@.take(i as int), limit),
                None => empty_handle(free@.take(i as int), limit) < 0,
            },
        decreases free@.len() - i,
    {
        let record = free[i];
        assert(free@.take(i + 1).drop_last() =~= free@.take(i as int));
        assert(free@.take(i + 1).last() == record);
        let below = limit >= 16 && record.handle <= limit - 16;
        if record.ptr == 0 {
            if below && empty.is_none() {
                empty = Some(i);
            }
        } else if let Some(capacity) = native_allocation_size(record.capacity) {
            if below && capacity >= required && record.ptr <= limit && capacity <= limit
                - record.ptr {
                let better = match best {
                    Some(_) => capacity < best_capacity,
                    None => true,
                };
                if better {
                    best = Some(i);
                    best_capacity = capacity;
                }
            }
        }
        i += 1;
    }
    assert(free@.take(i as int) =~= free@);
    match best {
        Some(_) => best,
        None => empty,
    }
}

/// Position of the first record of a pointer, or a negative number.
pub open spec fn ptr_index(records: Seq<ProcessPtrRecord>, ptr: u32) -> int
    decreases records.len(),
{
    if records.len() == 0 {
        -1
    } else {
        let before = ptr_index(records.drop_last(), ptr);
        if before >= 0 {
            before
        } else if records.last().ptr == ptr {
            records.len() - 1
        } else {
            -1
        }
    }
}

pub proof fn lemma_ptr_index(records: Seq<ProcessPtrRecord>, ptr: u32)
    ensures
        ptr_index(records, ptr) < records.len(),
        ptr_index(records, ptr) >= 0 ==> records[ptr_index(records, ptr)].ptr == ptr,
        ptr_index(records, ptr) < 0 ==> forall|i: int|
            0 <= i < records.len() ==> (#[trigger] records[i]).ptr != ptr,
    decreases records.len(),
{
    if records.len() > 0 {
        let rest = records.drop_last();
        lemma_ptr_index(rest, ptr);
        assert forall|i: int|
            ptr_index(records, ptr) < 0 && 0 <= i < records.len() implies (
        #[trigger] records[i]).ptr != ptr by {
            if i < rest.len() {
                assert(rest[i] == records[i]);
            }
        }
    }
}

pub(crate) fn find_ptr(records: &Vec<ProcessPtrRecord>, ptr: u32) -> (found: Option<usize>)
    ensures
        match found {
            Some(i) => i < records@.len() && i == ptr_index(records@, ptr) && records@[i as int].ptr
                == ptr,
            None => ptr_index(records@, ptr) < 0,
        },
{
    let mut i: usize = 0;
    while i < records.len()
        invariant
            i <= records@.len(),
            ptr_index(records@.take(i as int), ptr) < 0,
        decreases records@.len() - i,
    {
        assert(records@.take(i + 1).drop_last() =~= records@.take(i as int));
        if records[i].ptr == ptr {
            proof {
                lemma_ptr_index_prefix(records@, ptr, i as int);
            }
            return Some(i);
        }
        i += 1;
    }
    assert(records@.take(i as int) =~= records@);
    None
}

proof fn lemma_ptr_index_prefix(records: Seq<ProcessPtrRecord>, ptr: u32, index: int)
    requires
        0 <= index < records.len(),
        records[index].ptr == ptr,
        ptr_index(records.take(index), ptr) < 0,
    ensures
        ptr_index(records, ptr) == index,
    decreases records.len(),
{
    if index == records.len() - 1 {
        assert(records.drop_last() =~= records.take(index));
    } else {
        let rest = records.drop_last();
        assert(rest.take(index) =~= records.take(index));
        lemma_ptr_index_prefix(rest, ptr, index);
    }
}

/// Position of the first record of a handle, or a negative number.
pub open spec fn handle_index(records: Seq<ProcessHandleRecord>, handle: u32) -> int
    decreases records.len(),
{
    if records.len() == 0 {
        -1
    } else {
        let before = handle_index(records.drop_last(), handle);
        if before >= 0 {
            before
        } else if records.last().handle == handle {
            records.len() - 1
        } else {
            -1
        }
    }
}

pub proof fn lemma_handle_index(records: Seq<ProcessHandleRecord>, handle: u32)
    ensures
        handle_index(records, handle) < records.len(),
        handle_index(records, handle) >= 0 ==> records[handle_index(records, handle)].handle
            == handle,
        handle_index(records, handle) < 0 ==> forall|i: int|
            0 <= i < records.len() ==> (#[trigger] records[i]).handle != handle,
    decreases records.len(),
{
    if records.len() > 0 {
        let rest = records.drop_last();
        lemma_handle_index(rest, handle);
        assert forall|i: int|
            handle_index(records, handle) < 0 && 0 <= i < records.len() implies (
        #[trigger] records[i]).handle != handle by {
            if i < rest.len() {
                assert(rest[i] == records[i]);
            }
        }
    }
}

pub(crate) fn find_handle(records: &Vec<ProcessHandleRecord>, handle: u32) -> (found: Option<
    usize,
>)
    ensures
        match found {
            Some(i) => i < records@.len() && i == handle_index(records@, handle)
                && records@[i as int].handle == handle,
            None => handle_index(records@, handle) < 0,
        },
{
    let mut i: usize = 0;
    while i < records.len()
        invariant
            i <= records@.len(),
            handle_index(records@.take(i as int), handle) < 0,
        decreases records@.len() - i,
    {
        assert(records@.take(i + 1).drop_last() =~= records@.take(i as int));
        if records[i].handle == handle {
            proof {
                lemma_handle_index_prefix(records@, handle, i as int);
            }
            return Some(i);
        }
        i += 1;
    }
    assert(records@.take(i as int) =~= records@);
    None
}

proof fn lemma_handle_index_prefix(records: Seq<ProcessHandleRecord>, handle: u32, index: int)
    requires
        0 <= index < records.len(),
        records[index].handle == handle,
        handle_index(records.take(index), handle) < 0,
    ensures
        handle_index(records, handle) == index,
    decreases records.len(),
{
    if index == records.len() - 1 {
        assert(records.drop_last() =~= records.take(index));
    } else {
        let rest = records.drop_last();
        assert(rest.take(index) =~= records.take(index));
        lemma_handle_index_prefix(rest, handle, index);
    }
}

} // verus!
