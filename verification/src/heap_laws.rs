//! What holds of every classic heap allocation.

use crate::classic_heap::{ClassicAllocationPlanSource, HeapModel};
use vstd::prelude::*;

verus! {

pub(crate) proof fn lemma_first_usable(reserved: Seq<(u32, u32)>, blocks: Seq<u32>, bucket: u32, alignment: u32)
    ensures
        crate::classic_heap::first_usable(reserved, blocks, bucket, alignment) matches Some(address)
            ==> blocks.contains(address) && crate::classic_heap::usable(reserved, address, bucket, alignment),
    decreases blocks.len(),
{
    if blocks.len() > 0 && !crate::classic_heap::usable(reserved, blocks[0], bucket, alignment) {
        lemma_first_usable(reserved, blocks.drop_first(), bucket, alignment);
        if let Some(address) = crate::classic_heap::first_usable(reserved, blocks.drop_first(), bucket, alignment) {
            let i = choose|i: int|
                0 <= i < blocks.drop_first().len() && blocks.drop_first()[i] == address;
            assert(blocks[i + 1] == address);
        }
    }
}

proof fn lemma_last_usable(reserved: Seq<(u32, u32)>, blocks: Seq<u32>, bucket: u32, alignment: u32)
    ensures
        crate::classic_heap::last_usable(reserved, blocks, bucket, alignment) matches Some(address)
            ==> blocks.contains(address) && crate::classic_heap::usable(reserved, address, bucket, alignment),
    decreases blocks.len(),
{
    if blocks.len() > 0 && !crate::classic_heap::usable(reserved, blocks.last(), bucket, alignment) {
        lemma_last_usable(reserved, blocks.drop_last(), bucket, alignment);
        if let Some(address) = crate::classic_heap::last_usable(reserved, blocks.drop_last(), bucket, alignment) {
            let i = choose|i: int|
                0 <= i < blocks.drop_last().len() && blocks.drop_last()[i] == address;
            assert(blocks[i] == address);
        }
    }
}

proof fn lemma_bump_from(reserved: Seq<(u32, u32)>, ptr: int, size: int, alignment: int)
    requires
        0 < alignment,
        0 <= ptr,
        0 <= size,
        ptr % alignment == 0,
    ensures
        crate::classic_heap::bump_from(reserved, ptr, size, alignment) matches Some((address, next)) ==> {
            &&& address >= ptr
            &&& next == address + size
            &&& address as int % alignment == 0
            &&& !crate::classic_heap::meets_reserved(reserved, address as int, size)
        },
    decreases u32::MAX - ptr,
{
    if ptr + size <= u32::MAX {
        crate::classic_heap::lemma_first_meeting(reserved, ptr, ptr + size);
        if let Some(end) = crate::classic_heap::first_meeting(reserved, ptr, ptr + size) {
            crate::classic_heap::lemma_round_up(end as int, alignment);
            if end + (alignment - 1) <= u32::MAX {
                lemma_bump_from(reserved, crate::classic_heap::round_up(end as int, alignment), size, alignment);
            }
        }
    }
}

proof fn lemma_contains_first_index(list: Seq<u32>, element: u32)
    requires
        list.contains(element),
    ensures
        0 <= crate::classic_heap::first_index(list, element) < list.len(),
    decreases list.len(),
{
    if list[0] != element {
        let i = choose|i: int| 0 <= i < list.len() && list[i] == element;
        assert(list.drop_first()[i - 1] == element);
        lemma_contains_first_index(list.drop_first(), element);
    }
}

/// The block that a heap plans for a request meets no reserved span, is
/// aligned, holds the request, and is either a recycled block or lies at the
/// cursor below the limit. The plan can be carried out unless the block is
/// live.
pub proof fn planned_block_is_placed(heap: HeapModel, size: u32, alignment: u32, heap_limit: u32)
    ensures
        heap.plan(size, alignment, heap_limit) matches Some(plan) ==> {
            &&& plan.requested_size == size
            &&& crate::classic_heap::bucket_size(size as int) == plan.aligned_size
            &&& size <= plan.aligned_size <= plan.spec_capacity()
            &&& !crate::classic_heap::meets_reserved(heap.reserved, plan.address as int, plan.spec_capacity() as int)
            &&& plan.address + plan.spec_capacity() <= u32::MAX
            &&& match plan.source {
                ClassicAllocationPlanSource::Free { bucket, .. } => heap.free.dom().contains(
                    bucket,
                ) && heap.free[bucket].contains(plan.address),
                ClassicAllocationPlanSource::Bump { next_heap_ptr, .. } => {
                    &&& heap.heap_ptr <= plan.address
                    &&& plan.address as int % crate::classic_heap::effective_alignment(alignment) as int == 0
                    &&& next_heap_ptr == plan.address + plan.aligned_size
                    &&& next_heap_ptr < heap_limit
                },
            }
            &&& !heap.sizes.dom().contains(plan.address) ==> heap.admits(plan)
        },
{
    if let Some(plan) = heap.plan(size, alignment, heap_limit) {
        let step = crate::classic_heap::effective_alignment(alignment);
        crate::classic_heap::lemma_round_up(size as int, 4);
        match plan.source {
            ClassicAllocationPlanSource::Free { bucket, .. } => {
                lemma_first_usable(heap.reserved, heap.free[bucket], bucket, step);
                lemma_last_usable(heap.reserved, heap.free[bucket], bucket, step);
                let found = heap.best_bucket(plan.aligned_size, step);
                if let Some(best) = found {
                    assert(heap.best(best, plan.aligned_size, step));
                }
                lemma_contains_first_index(heap.free[bucket], plan.address);
            },
            ClassicAllocationPlanSource::Bump { .. } => {
                crate::classic_heap::lemma_round_up(heap.heap_ptr as int, step as int);
                lemma_bump_from(
                    heap.reserved,
                    crate::classic_heap::round_up(heap.heap_ptr as int, step as int),
                    plan.aligned_size as int,
                    step as int,
                );
            },
        }
    }
}

/// A block that was handed out is live with the requested size, lies outside
/// every reserved span, and was not live before.
pub proof fn allocated_block_is_new(heap: HeapModel, size: u32, alignment: u32, heap_limit: u32)
    ensures
        ({
            let (after, address) = heap.allocate(size, alignment, heap_limit);
            address != 0 ==> {
                &&& !heap.sizes.dom().contains(address)
                &&& after.size_of(address) == Some(size)
                &&& !crate::classic_heap::meets_reserved(heap.reserved, address as int, crate::classic_heap::bucket_size(size as int))
                &&& forall|other: u32|
                    other != address ==> after.size_of(other) == heap.size_of(other)
            }
        }),
{
    planned_block_is_placed(heap, size, alignment, heap_limit);
    let (after, address) = heap.allocate(size, alignment, heap_limit);
    if address != 0 {
        let plan = heap.plan(size, alignment, heap_limit)->0;
        let len = crate::classic_heap::bucket_size(size as int);
        if crate::classic_heap::meets_reserved(heap.reserved, address as int, len) {
            assert(len <= plan.spec_capacity());
            assert(address + len <= u32::MAX);
            let i = choose|i: int|
                0 <= i < heap.reserved.len() && crate::classic_heap::ranges_meet(
                    #[trigger] heap.reserved[i],
                    address as int,
                    address + len,
                );
            assert(crate::classic_heap::ranges_meet(
                heap.reserved[i],
                address as int,
                address + plan.spec_capacity(),
            ));
        }
    }
}

/// A heap that refuses a request stays as it is.
pub proof fn refused_request_changes_nothing(
    heap: HeapModel,
    size: u32,
    alignment: u32,
    heap_limit: u32,
)
    requires
        heap.plan(size, alignment, heap_limit) is None,
    ensures
        heap.allocate(size, alignment, heap_limit) == (heap, 0u32),
{
}

/// A block keeps its capacity however its logical size changes, so a resized
/// block can be resized back.
pub proof fn resized_block_keeps_its_capacity(heap: HeapModel, address: u32, size: u32)
    requires
        heap.size_of(address) is Some,
    ensures
        heap.resize(address, size).size_of(address) == Some(size),
        heap.resize(address, size).capacity_of(address) == heap.capacity_of(address),
        forall|other: u32|
            other != address ==> heap.resize(address, size).size_of(other) == heap.size_of(other),
{
}

/// A released block is no longer live, and its capacity's list ends with it,
/// so that it is the first to be recycled at word alignment.
pub proof fn released_block_is_recycled(heap: HeapModel, address: u32)
    requires
        address != 0,
        heap.size_of(address) is Some,
    ensures
        heap.release(address).size_of(address) is None,
        heap.release(address).free[heap.capacity_of(address)->0].last() == address,
        forall|other: u32|
            other != address ==> heap.release(address).size_of(other) == heap.size_of(other),
{
}

} // verus!
