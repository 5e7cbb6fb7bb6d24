//! The blocks of a classic heap never overlap.

use crate::classic_heap::{ClassicAllocationPlanSource, HeapModel, CLASSIC_HEAP_BASE};
use vstd::prelude::*;

verus! {

/// Two blocks have no byte in common.
pub open spec fn blocks_disjoint(a: int, a_len: int, b: int, b_len: int) -> bool {
    a + a_len <= b || b + b_len <= a
}

/// A block of the heap lies between its base and its cursor and is not empty.
pub open spec fn block_in_heap(heap: HeapModel, address: u32, len: u32) -> bool {
    CLASSIC_HEAP_BASE <= address && 0 < len && address + len <= heap.heap_ptr
}

/// A list of recycled blocks has a block at a position.
pub open spec fn is_free(heap: HeapModel, bucket: u32, i: int) -> bool {
    heap.free.dom().contains(bucket) && 0 <= i < heap.free[bucket].len()
}

/// Live blocks and recycled blocks lie in the heap, no two of them overlap,
/// and no live block outgrows its capacity.
pub open spec fn heap_blocks_apart(heap: HeapModel) -> bool {
    &&& heap.sized()
    &&& CLASSIC_HEAP_BASE <= heap.heap_ptr
    &&& forall|a: u32| #[trigger] heap.buckets.dom().contains(a) ==> heap.sizes.dom().contains(a)
    &&& forall|a: u32| #[trigger]
        heap.sizes.dom().contains(a) ==> block_in_heap(heap, a, heap.capacity_of(a)->0)
            && crate::classic_heap::bucket_size(heap.sizes[a] as int) <= heap.capacity_of(a)->0
    &&& forall|b: u32, i: int| #[trigger]
        is_free(heap, b, i) ==> block_in_heap(heap, heap.free[b][i], b)
    &&& forall|a: u32, c: u32|
        #![trigger heap.sizes.dom().contains(a), heap.sizes.dom().contains(c)]
        heap.sizes.dom().contains(a) && heap.sizes.dom().contains(c) && a != c ==> blocks_disjoint(
            a as int,
            heap.capacity_of(a)->0 as int,
            c as int,
            heap.capacity_of(c)->0 as int,
        )
    &&& forall|a: u32, b: u32, i: int|
        #![trigger heap.sizes.dom().contains(a), is_free(heap, b, i)]
        heap.sizes.dom().contains(a) && is_free(heap, b, i) ==> blocks_disjoint(
            a as int,
            heap.capacity_of(a)->0 as int,
            heap.free[b][i] as int,
            b as int,
        )
    &&& forall|b: u32, i: int, c: u32, j: int|
        #![trigger is_free(heap, b, i), is_free(heap, c, j)]
        is_free(heap, b, i) && is_free(heap, c, j) && (b != c || i != j) ==> blocks_disjoint(
            heap.free[b][i] as int,
            b as int,
            heap.free[c][j] as int,
            c as int,
        )
}

proof fn lemma_first_index_holds(list: Seq<u32>, element: u32)
    ensures
        crate::classic_heap::first_index(list, element) < list.len(),
        crate::classic_heap::first_index(list, element) >= 0 ==> list[crate::classic_heap::first_index(
            list,
            element,
        )] == element,
    decreases list.len(),
{
    if list.len() > 0 && list[0] != element {
        lemma_first_index_holds(list.drop_first(), element);
    }
}

/// The blocks of a new heap are apart.
pub proof fn new_heap_is_apart()
    ensures
        heap_blocks_apart(HeapModel::fresh()),
{
}

/// Resizing a block within its capacity keeps the blocks apart.
pub proof fn resizing_keeps_blocks_apart(heap: HeapModel, address: u32, size: u32)
    requires
        heap_blocks_apart(heap),
        size <= u32::MAX - 3,
        heap.capacity_of(address) matches Some(capacity) ==> crate::classic_heap::bucket_size(
            size as int,
        ) <= capacity,
    ensures
        heap_blocks_apart(heap.resize(address, size)),
{
    let after = heap.resize(address, size);
    assert forall|a: u32| #[trigger] after.sizes.dom().contains(a) implies heap.sizes.dom().contains(
        a,
    ) && after.capacity_of(a) == heap.capacity_of(a) by {}
    assert forall|b: u32, i: int| #[trigger] is_free(after, b, i) implies is_free(heap, b, i) by {}
}

/// Releasing a block keeps the blocks apart: what it occupied is recycled.
pub proof fn releasing_keeps_blocks_apart(heap: HeapModel, address: u32)
    requires
        heap_blocks_apart(heap),
    ensures
        heap_blocks_apart(heap.release(address)),
{
    let after = heap.release(address);
    if heap.capacity_of(address) is Some && address != 0 {
        let bucket = heap.capacity_of(address)->0;
        let position = if heap.free.dom().contains(bucket) {
            heap.free[bucket].len() as int
        } else {
            0
        };
        assert(heap.sizes.dom().contains(address));
        assert forall|a: u32| #[trigger] after.sizes.dom().contains(a) implies a != address
            && heap.sizes.dom().contains(a) && after.capacity_of(a) == heap.capacity_of(a) by {}
        assert forall|b: u32, i: int| #[trigger] is_free(after, b, i) implies (if b == bucket && i
            == position {
            after.free[b][i] == address
        } else {
            is_free(heap, b, i) && after.free[b][i] == heap.free[b][i]
        }) by {}
    }
}

/// Reserving room keeps the blocks apart.
pub proof fn reserving_keeps_blocks_apart(heap: HeapModel, start: u32, end: u32)
    requires
        heap_blocks_apart(heap),
        end <= u32::MAX - 3,
    ensures
        heap_blocks_apart(heap.reserve_until(end)),
        heap_blocks_apart(heap.reserve_range(start, end)),
{
    crate::classic_heap::lemma_round_up(end as int, 4);
    let moved = heap.reserve_until(end);
    assert forall|a: u32| #[trigger] moved.sizes.dom().contains(a) implies heap.sizes.dom().contains(
        a,
    ) && moved.capacity_of(a) == heap.capacity_of(a) by {}
    assert forall|b: u32, i: int| #[trigger] is_free(moved, b, i) implies is_free(heap, b, i) by {}
    let spanned = heap.reserve_range(start, end);
    assert forall|a: u32| #[trigger] spanned.sizes.dom().contains(a) implies heap.sizes.dom().contains(
        a,
    ) && spanned.capacity_of(a) == heap.capacity_of(a) by {}
    assert forall|b: u32, i: int| #[trigger] is_free(spanned, b, i) implies is_free(heap, b, i) by {}
}

proof fn lemma_recycling_keeps_blocks_apart(heap: HeapModel, size: u32, alignment: u32, heap_limit: u32)
    requires
        heap_blocks_apart(heap),
        heap.plan(size, alignment, heap_limit) is Some,
        heap.plan(size, alignment, heap_limit)->0.source is Free,
    ensures
        heap.admits(heap.plan(size, alignment, heap_limit)->0),
        heap.plan(size, alignment, heap_limit)->0.address != 0,
        heap_blocks_apart(heap.commit(heap.plan(size, alignment, heap_limit)->0)),
{
    let plan = heap.plan(size, alignment, heap_limit)->0;
    let address = plan.address;
    let bucket = plan.source->bucket;
    crate::heap_laws::planned_block_is_placed(heap, size, alignment, heap_limit);
    let position = crate::classic_heap::first_index(heap.free[bucket], address);
    lemma_first_index_holds(heap.free[bucket], address);
    let k = choose|k: int| 0 <= k < heap.free[bucket].len() && heap.free[bucket][k] == address;
    assert(is_free(heap, bucket, k));
    if heap.sizes.dom().contains(address) {
        assert(blocks_disjoint(
            address as int,
            heap.capacity_of(address)->0 as int,
            heap.free[bucket][k] as int,
            bucket as int,
        ));
    }
    assert(heap.admits(plan));
    assert(position >= 0);
    let after = heap.commit(plan);
    let last = heap.free[bucket].len() - 1;
    assert(is_free(heap, bucket, position));
    assert(!heap.buckets.dom().contains(address));
    assert(after.capacity_of(address) == Some(bucket));
    assert forall|a: u32| #[trigger] after.sizes.dom().contains(a) && a != address implies heap.sizes.dom().contains(
        a,
    ) && after.capacity_of(a) == heap.capacity_of(a) by {}
    assert forall|b: u32, i: int| #[trigger] is_free(after, b, i) implies (if b == bucket && i
        == position {
        is_free(heap, b, last) && after.free[b][i] == heap.free[b][last] && last != position
    } else {
        is_free(heap, b, i) && after.free[b][i] == heap.free[b][i] && (b != bucket || i != last)
    }) by {}
}

proof fn lemma_bumping_keeps_blocks_apart(heap: HeapModel, size: u32, alignment: u32, heap_limit: u32)
    requires
        heap_blocks_apart(heap),
        heap.plan(size, alignment, heap_limit) is Some,
        heap.plan(size, alignment, heap_limit)->0.source is Bump,
    ensures
        heap.admits(heap.plan(size, alignment, heap_limit)->0),
        heap.plan(size, alignment, heap_limit)->0.address != 0,
        heap_blocks_apart(heap.commit(heap.plan(size, alignment, heap_limit)->0)),
{
    let plan = heap.plan(size, alignment, heap_limit)->0;
    let address = plan.address;
    crate::heap_laws::planned_block_is_placed(heap, size, alignment, heap_limit);
    crate::classic_heap::lemma_round_up(size as int, 4);
    if heap.sizes.dom().contains(address) {
        assert(block_in_heap(heap, address, heap.capacity_of(address)->0));
    }
    let after = heap.commit(plan);
    assert(!heap.buckets.dom().contains(address));
    assert(after.capacity_of(address) == Some(plan.aligned_size));
    assert forall|a: u32| #[trigger] after.sizes.dom().contains(a) && a != address implies heap.sizes.dom().contains(
        a,
    ) && after.capacity_of(a) == heap.capacity_of(a) by {}
    assert forall|b: u32, i: int| #[trigger] is_free(after, b, i) implies is_free(heap, b, i) by {}
}

/// Allocating keeps the blocks apart, so a block that is handed out overlaps
/// no block that was live. Every request that the heap can plan is served.
pub proof fn allocating_keeps_blocks_apart(
    heap: HeapModel,
    size: u32,
    alignment: u32,
    heap_limit: u32,
)
    requires
        heap_blocks_apart(heap),
    ensures
        ({
            let (after, address) = heap.allocate(size, alignment, heap_limit);
            &&& heap_blocks_apart(after)
            &&& (address != 0) == (heap.plan(size, alignment, heap_limit) is Some)
            &&& address != 0 ==> forall|other: u32| #[trigger]
                heap.sizes.dom().contains(other) ==> blocks_disjoint(
                    address as int,
                    after.capacity_of(address)->0 as int,
                    other as int,
                    heap.capacity_of(other)->0 as int,
                )
        }),
{
    let (after, address) = heap.allocate(size, alignment, heap_limit);
    if let Some(plan) = heap.plan(size, alignment, heap_limit) {
        match plan.source {
            ClassicAllocationPlanSource::Free { .. } => {
                lemma_recycling_keeps_blocks_apart(heap, size, alignment, heap_limit);
            },
            ClassicAllocationPlanSource::Bump { .. } => {
                lemma_bumping_keeps_blocks_apart(heap, size, alignment, heap_limit);
            },
        }
        assert(after.sizes.dom().contains(address));
        assert forall|other: u32| #[trigger]
            heap.sizes.dom().contains(other) implies blocks_disjoint(
            address as int,
            after.capacity_of(address)->0 as int,
            other as int,
            heap.capacity_of(other)->0 as int,
        ) by {
            assert(other != address);
            assert(after.sizes.dom().contains(other));
            assert(after.capacity_of(other) == heap.capacity_of(other));
        }
    }
}

} // verus!
