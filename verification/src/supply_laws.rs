//! When a heap owes a block, and which one it gives.

use crate::classic_heap::{ClassicAllocationPlanSource, HeapModel};
use crate::guest_memory::SpaceModel;
use crate::memory_model::ManagerModel;
use vstd::prelude::*;

verus! {

/// Classic blocks come in words: a request is served by the least multiple of
/// four that holds it, and by four bytes at least.
pub proof fn classic_blocks_come_in_words(size: u32)
    ensures
        ({
            let bucket = crate::classic_heap::bucket_size(size as int);
            &&& bucket % 4 == 0
            &&& bucket >= 4
            &&& size <= bucket
            &&& size > 0 ==> bucket < size + 4
            &&& size == 0 ==> bucket == 4
        }),
{
    crate::classic_heap::lemma_round_up(size as int, 4);
}

/// Native blocks come in units of sixteen bytes: a request is served by the
/// least multiple of sixteen that holds it, and by sixteen bytes at least; one
/// that cannot be rounded up within the address range is refused.
pub proof fn native_blocks_come_in_units(size: u32)
    ensures
        crate::native_heap::native_size(size) is None <==> size > u32::MAX - 15,
        crate::native_heap::native_size(size) matches Some(capacity) ==> {
            &&& capacity % 16 == 0
            &&& capacity >= 16
            &&& size <= capacity
            &&& size > 0 ==> capacity < size + 16
            &&& size == 0 ==> capacity == 16
        },
{
    crate::classic_heap::lemma_round_up(size as int, 16);
}

/// A span that meets no reserved range has no byte in common with any of them,
/// and one that has a byte in common with a range meets it.
pub proof fn meeting_is_sharing_a_byte(range: (u32, u32), start: int, end: int)
    requires
        range.0 < range.1,
        start < end,
    ensures
        crate::classic_heap::ranges_meet(range, start, end) <==> exists|byte: int|
            range.0 <= byte < range.1 && #[trigger] byte_between(start, byte, end),
{
    if crate::classic_heap::ranges_meet(range, start, end) {
        let byte = if start >= range.0 {
            start
        } else {
            range.0 as int
        };
        assert(byte_between(start, byte, end));
    }
}

/// A byte lies in a span.
pub open spec fn byte_between(start: int, byte: int, end: int) -> bool {
    start <= byte < end
}

proof fn lemma_last_usable_none(reserved: Seq<(u32, u32)>, blocks: Seq<u32>, bucket: u32)
    ensures
        crate::classic_heap::last_usable(reserved, blocks, bucket, 4) is None ==> forall|i: int|
            0 <= i < blocks.len() ==> crate::classic_heap::meets_reserved(
                reserved,
                (#[trigger] blocks[i]) as int,
                bucket as int,
            ),
        crate::classic_heap::last_usable(reserved, blocks, bucket, 4) matches Some(address) ==> {
            exists|i: int|
                0 <= i < blocks.len() && #[trigger] blocks[i] == address && forall|j: int|
                    i < j < blocks.len() ==> crate::classic_heap::meets_reserved(
                        reserved,
                        (#[trigger] blocks[j]) as int,
                        bucket as int,
                    )
        },
    decreases blocks.len(),
{
    if blocks.len() > 0 {
        let rest = blocks.drop_last();
        lemma_last_usable_none(reserved, rest, bucket);
        if crate::classic_heap::usable(reserved, blocks.last(), bucket, 4) {
            assert(blocks[blocks.len() - 1] == blocks.last());
        } else {
            if let Some(address) = crate::classic_heap::last_usable(reserved, rest, bucket, 4) {
                let i = choose|i: int|
                    0 <= i < rest.len() && #[trigger] rest[i] == address && forall|j: int|
                        i < j < rest.len() ==> crate::classic_heap::meets_reserved(
                            reserved,
                            (#[trigger] rest[j]) as int,
                            bucket as int,
                        );
                assert(blocks[i] == address);
                assert forall|j: int|
                    i < j < blocks.len() implies crate::classic_heap::meets_reserved(
                    reserved,
                    (#[trigger] blocks[j]) as int,
                    bucket as int,
                ) by {
                    if j < rest.len() {
                        assert(rest[j] == blocks[j]);
                    }
                }
            } else {
                assert forall|j: int|
                    0 <= j < blocks.len() implies crate::classic_heap::meets_reserved(
                    reserved,
                    (#[trigger] blocks[j]) as int,
                    bucket as int,
                ) by {
                    if j < rest.len() {
                        assert(rest[j] == blocks[j]);
                    }
                }
            }
        }
    }
}

/// A list of recycled blocks has a block at a position that meets no reserved
/// range.
pub open spec fn can_serve(heap: HeapModel, bucket: u32, i: int) -> bool {
    crate::heap_blocks::is_free(heap, bucket, i) && !crate::classic_heap::meets_reserved(
        heap.reserved,
        heap.free[bucket][i] as int,
        bucket as int,
    )
}

/// A recycled block of a larger size serves a request where it is not wasteful:
/// up to a page for small requests, else up to twice the request and a page.
pub open spec fn not_wasteful(bucket: int, requested: int) -> bool {
    if requested <= 1024 {
        bucket <= 4096
    } else {
        bucket <= 2 * requested + 4096
    }
}

/// A heap refuses a request only where it has no room for it: every recycled
/// block that fits without waste meets a reserved range, and so does the block
/// at the cursor, or it would reach the limit.
pub proof fn heap_refuses_only_without_room(heap: HeapModel, size: u32, limit: u32)
    requires
        size <= u32::MAX - 3,
        heap.plan(size, 4, limit) is None,
    ensures
        ({
            let wanted = crate::classic_heap::bucket_size(size as int);
            let cursor = crate::classic_heap::round_up(heap.heap_ptr as int, 4);
            &&& forall|bucket: u32, i: int| #[trigger]
                crate::heap_blocks::is_free(heap, bucket, i) && (bucket == wanted || (bucket
                    > wanted && not_wasteful(bucket as int, wanted)))
                    ==> crate::classic_heap::meets_reserved(
                    heap.reserved,
                    heap.free[bucket][i] as int,
                    bucket as int,
                )
            &&& crate::classic_heap::meets_reserved(heap.reserved, cursor, wanted) || cursor
                + wanted >= limit
        }),
{
    let wanted = crate::classic_heap::bucket_size(size as int) as u32;
    classic_blocks_come_in_words(size);
    assert forall|bucket: u32, i: int| #[trigger]
        crate::heap_blocks::is_free(heap, bucket, i) && (bucket == wanted || (bucket > wanted
            && not_wasteful(bucket as int, wanted as int))) implies crate::classic_heap::meets_reserved(
        heap.reserved,
        heap.free[bucket][i] as int,
        bucket as int,
    ) by {
        lemma_last_usable_none(heap.reserved, heap.free[bucket], bucket);
        if bucket > wanted {
            assert(crate::classic_heap::bucket_suits(bucket as int, wanted as int));
            if heap.pick(bucket, 4) is Some {
                assert(heap.candidate(bucket, wanted, 4));
                lemma_best_exists(heap, bucket, wanted, 4);
                assert(heap.best_bucket(wanted, 4) is Some);
            }
        }
    }
    crate::classic_heap::lemma_round_up(heap.heap_ptr as int, 4);
    let cursor = crate::classic_heap::round_up(heap.heap_ptr as int, 4);
    if cursor + wanted <= u32::MAX {
        crate::classic_heap::lemma_first_meeting(heap.reserved, cursor, cursor + wanted);
    }
}

proof fn lemma_best_exists(heap: HeapModel, bucket: u32, wanted: u32, alignment: u32)
    requires
        heap.candidate(bucket, wanted, alignment),
    ensures
        exists|best: u32| heap.best(best, wanted, alignment),
    decreases bucket,
{
    if exists|other: u32| heap.candidate(other, wanted, alignment) && other < bucket {
        let other = choose|other: u32| heap.candidate(other, wanted, alignment) && other < bucket;
        lemma_best_exists(heap, other, wanted, alignment);
    } else {
        assert(heap.best(bucket, wanted, alignment));
    }
}

/// A request takes the recycled block that fits it best: one of exactly its
/// size where one is usable, and of these the latest; else one of the least
/// larger size that is usable and not wasteful, which keeps its capacity; else
/// a new one.
pub proof fn best_recycled_block_is_taken(heap: HeapModel, size: u32, limit: u32)
    requires
        size <= u32::MAX - 3,
        heap.plan(size, 4, limit) is Some,
    ensures
        ({
            let plan = heap.plan(size, 4, limit)->0;
            let wanted = crate::classic_heap::bucket_size(size as int);
            match plan.source {
                ClassicAllocationPlanSource::Free { bucket, retains_capacity } => {
                    &&& retains_capacity <==> bucket != wanted
                    &&& bucket >= wanted
                    &&& bucket > wanted ==> not_wasteful(bucket as int, wanted)
                    &&& plan.spec_capacity() == bucket
                    &&& heap.commit(plan).capacity_of(plan.address) == Some(
                        if bucket != wanted || !heap.buckets.dom().contains(plan.address) {
                            bucket
                        } else {
                            heap.buckets[plan.address]
                        },
                    )
                    &&& exists|i: int|
                        #![trigger heap.free[bucket][i]]
                        can_serve(heap, bucket, i) && heap.free[bucket][i] == plan.address && forall|j: int|
                            i < j ==> !#[trigger] can_serve(heap, bucket, j)
                    &&& forall|other: u32, i: int| #[trigger]
                        can_serve(heap, other, i) && wanted <= other < bucket ==> other != wanted
                            && !not_wasteful(other as int, wanted)
                },
                ClassicAllocationPlanSource::Bump { previous_heap_ptr, next_heap_ptr } => {
                    &&& previous_heap_ptr == heap.heap_ptr
                    &&& plan.spec_capacity() == wanted
                    &&& next_heap_ptr == plan.address + wanted
                    &&& forall|other: u32, i: int| #[trigger]
                        can_serve(heap, other, i) && wanted <= other ==> other != wanted && !not_wasteful(
                            other as int,
                            wanted,
                        )
                    &&& !crate::classic_heap::meets_reserved(
                        heap.reserved,
                        crate::classic_heap::round_up(heap.heap_ptr as int, 4),
                        wanted,
                    ) ==> plan.address == crate::classic_heap::round_up(heap.heap_ptr as int, 4)
                },
            }
        }),
{
    let plan = heap.plan(size, 4, limit)->0;
    let wanted = crate::classic_heap::bucket_size(size as int) as u32;
    classic_blocks_come_in_words(size);
    crate::heap_laws::planned_block_is_placed(heap, size, 4, limit);
    let best = heap.best_bucket(wanted, 4);
    if let Some(bucket) = best {
        assert(heap.best(bucket, wanted, 4));
    }
    assert forall|other: u32, i: int| #[trigger]
        can_serve(heap, other, i) && wanted < other && not_wasteful(
            other as int,
            wanted as int,
        ) implies heap.candidate(other, wanted, 4) && best is Some && best->0 <= other by {
        lemma_last_usable_none(heap.reserved, heap.free[other], other);
        assert(crate::classic_heap::bucket_suits(other as int, wanted as int));
        assert(heap.candidate(other, wanted, 4));
        lemma_best_exists(heap, other, wanted, 4);
    }
    assert forall|i: int| #[trigger] can_serve(heap, wanted, i) implies heap.pick(wanted, 4) is Some by {
        lemma_last_usable_none(heap.reserved, heap.free[wanted], wanted);
    }
    match plan.source {
        ClassicAllocationPlanSource::Free { bucket, retains_capacity } => {
            lemma_last_usable_none(heap.reserved, heap.free[bucket], bucket);
            let i = choose|i: int|
                0 <= i < heap.free[bucket].len() && #[trigger] heap.free[bucket][i] == plan.address
                    && forall|j: int|
                    i < j < heap.free[bucket].len() ==> crate::classic_heap::meets_reserved(
                        heap.reserved,
                        (#[trigger] heap.free[bucket][j]) as int,
                        bucket as int,
                    );
            assert(can_serve(heap, bucket, i));
            assert forall|j: int| i < j implies !#[trigger] can_serve(heap, bucket, j) by {
                if 0 <= j < heap.free[bucket].len() {
                    assert(crate::classic_heap::meets_reserved(
                        heap.reserved,
                        heap.free[bucket][j] as int,
                        bucket as int,
                    ));
                }
            }
            assert(heap.free[bucket][i] == plan.address);
        },
        ClassicAllocationPlanSource::Bump { .. } => {
            crate::classic_heap::lemma_round_up(heap.heap_ptr as int, 4);
            let cursor = crate::classic_heap::round_up(heap.heap_ptr as int, 4);
            crate::classic_heap::lemma_first_meeting(heap.reserved, cursor, cursor + wanted);
        },
    }
}

/// A block that was released serves the next request of its size, unless a
/// reserved range has come to lie over it.
pub proof fn released_block_serves_its_size_again(heap: HeapModel, address: u32, limit: u32)
    requires
        address != 0,
        heap.size_of(address) is Some,
        heap.size_of(address)->0 <= u32::MAX - 3,
        heap.capacity_of(address) == Some(
            crate::classic_heap::bucket_size(heap.size_of(address)->0 as int) as u32,
        ),
        !crate::classic_heap::meets_reserved(
            heap.reserved,
            address as int,
            heap.capacity_of(address)->0 as int,
        ),
    ensures
        ({
            let size = heap.size_of(address)->0;
            let (after, again) = heap.release(address).allocate(size, 4, limit);
            &&& again == address
            &&& after.size_of(address) == Some(size)
            &&& after.heap_ptr == heap.heap_ptr
        }),
{
    let size = heap.size_of(address)->0;
    let bucket = heap.capacity_of(address)->0;
    let released = heap.release(address);
    classic_blocks_come_in_words(size);
    assert(released.free[bucket].last() == address);
    assert(crate::classic_heap::usable(released.reserved, address, bucket, 4));
    assert(released.pick(bucket, 4) == Some(address));
    crate::heap_laws::planned_block_is_placed(released, size, 4, limit);
}

/// What was reserved is never given out: no block that is allocated afterwards
/// has a byte of the range.
pub proof fn reserved_range_is_never_given_out(
    heap: HeapModel,
    start: u32,
    end: u32,
    size: u32,
    alignment: u32,
    limit: u32,
)
    requires
        start < end <= u32::MAX - 3,
    ensures
        ({
            let reserved = heap.reserve_range(start, end);
            let (after, address) = reserved.allocate(size, alignment, limit);
            &&& address != 0 ==> address + size <= start || end <= address
            &&& reserved.sizes == heap.sizes && reserved.free == heap.free && reserved.heap_ptr
                == heap.heap_ptr && reserved.buckets == heap.buckets && reserved.owner == heap.owner
            &&& forall|i: int|
                0 <= i < heap.reserved.len() ==> reserved.reserved.contains(
                    #[trigger] heap.reserved[i],
                )
            &&& reserved.reserved.len() == heap.reserved.len() + 1
        }),
{
    let reserved = heap.reserve_range(start, end);
    let span = crate::classic_heap::reserved_span(start, end);
    crate::heap_laws::allocated_block_is_new(reserved, size, alignment, limit);
    crate::heap_laws::planned_block_is_placed(reserved, size, alignment, limit);
    classic_blocks_come_in_words(size);
    lemma_leading_bounds(heap.reserved, span);
    let at = crate::classic_heap::leading(heap.reserved, span);
    assert(span.0 <= start && end <= span.1);
    assert(reserved.reserved[at] == span);
    assert forall|i: int| 0 <= i < heap.reserved.len() implies reserved.reserved.contains(
        #[trigger] heap.reserved[i],
    ) by {
        let moved = if i < at {
            i
        } else {
            i + 1
        };
        assert(reserved.reserved[moved] == heap.reserved[i]);
    }
    let (after, address) = reserved.allocate(size, alignment, limit);
    if address != 0 {
        let wanted = crate::classic_heap::bucket_size(size as int);
        if address < end && start < address + size {
            assert(crate::classic_heap::ranges_meet(
                reserved.reserved[at],
                address as int,
                address + wanted,
            ));
        }
    }
}

proof fn lemma_leading_bounds(reserved: Seq<(u32, u32)>, span: (u32, u32))
    ensures
        0 <= crate::classic_heap::leading(reserved, span) <= reserved.len(),
    decreases reserved.len(),
{
    if reserved.len() > 0 {
        lemma_leading_bounds(reserved.drop_first(), span);
    }
}

/// An empty range reserves nothing.
pub proof fn empty_range_reserves_nothing(heap: HeapModel, start: u32, end: u32)
    requires
        start >= end,
        start % 4 == 0,
        end % 4 == 0,
    ensures
        heap.reserve_range(start, end) == heap,
{
}

/// After the heap was reserved up to an address its cursor lies there or
/// beyond, on a word; it never goes back and nothing else changes.
pub proof fn reserved_front_is_skipped(heap: HeapModel, end: u32)
    requires
        end <= u32::MAX - 3,
    ensures
        ({
            let after = heap.reserve_until(end);
            &&& end <= after.heap_ptr
            &&& heap.heap_ptr <= after.heap_ptr
            &&& after.heap_ptr == heap.heap_ptr || (after.heap_ptr < end + 4 && after.heap_ptr % 4
                == 0)
            &&& after.sizes == heap.sizes && after.free == heap.free && after.reserved
                == heap.reserved && after.buckets == heap.buckets && after.owner == heap.owner
        }),
{
    crate::classic_heap::lemma_round_up(end as int, 4);
}

/// A block that was asked for on a power of two lies on it; other alignments
/// count as words.
pub proof fn block_lies_on_its_alignment(heap: HeapModel, size: u32, shift: u32, limit: u32)
    requires
        3 <= shift < 32,
    ensures
        crate::classic_heap::effective_alignment(1u32 << shift) == 1u32 << shift,
        heap.plan(size, 1u32 << shift, limit) matches Some(plan) ==> plan.address % (1u32 << shift)
            == 0,
        crate::classic_heap::effective_alignment(0) == 4,
        crate::classic_heap::effective_alignment(1) == 4,
        crate::classic_heap::effective_alignment(2) == 4,
        crate::classic_heap::effective_alignment(4) == 4,
        crate::classic_heap::effective_alignment(12) == 4,
{
    let step = 1u32 << shift;
    assert(step > 4 && step & ((step - 1) as u32) == 0) by (bit_vector)
        requires
            3 <= shift < 32,
            step == 1u32 << shift,
    ;
    assert(12u32 & 11u32 != 0) by (bit_vector);
    crate::heap_laws::planned_block_is_placed(heap, size, step, limit);
    if let Some(plan) = heap.plan(size, step, limit) {
        match plan.source {
            ClassicAllocationPlanSource::Free { bucket, .. } => {
                let wanted = crate::classic_heap::bucket_size(size as int) as u32;
                if let Some(best) = heap.best_bucket(wanted, step) {
                    assert(heap.best(best, wanted, step));
                }
                crate::heap_laws::lemma_first_usable(heap.reserved, heap.free[bucket], bucket, step);
            },
            ClassicAllocationPlanSource::Bump { .. } => {},
        }
    }
}

/// A native block that is placed behind the last one starts at the first
/// aligned address there where nothing excluded is in the way; wherever it
/// starts, it is aligned, ends below the limit and meets nothing excluded.
pub proof fn native_block_is_placed_behind_the_last(
    exclusions: Seq<(u32, u32)>,
    cursor: u32,
    limit: u32,
    size: u32,
    start: u32,
)
    requires
        start % 16 == 0,
        cursor <= start < cursor + 16,
    ensures
        ({
            let place = crate::native_heap::native_bounds(exclusions, cursor, limit, size);
            let in_the_way = |at: int|
                exists|i: int|
                    0 <= i < exclusions.len() && at < (#[trigger] exclusions[i]).1 && exclusions[i].0
                        < at + size;
            &&& place matches Some((ptr, end)) ==> {
                &&& ptr % 16 == 0
                &&& start <= ptr
                &&& end == ptr + size
                &&& end < limit
                &&& !in_the_way(ptr as int)
            }
            &&& start + size < limit && !in_the_way(start as int) ==> place == Some(
                (start, (start + size) as u32),
            )
        }),
{
    crate::classic_heap::lemma_round_up(cursor as int, 16);
    let rounded = crate::classic_heap::round_up(cursor as int, 16);
    assert(rounded == start);
    crate::native_heap::lemma_bounds_from(exclusions, rounded, limit, size);
    lemma_nothing_excluded(exclusions, start as int, size as int);
    if let Some((ptr, end)) = crate::native_heap::native_bounds(exclusions, cursor, limit, size) {
        lemma_nothing_excluded(exclusions, ptr as int, size as int);
    }
}

proof fn lemma_nothing_excluded(exclusions: Seq<(u32, u32)>, address: int, len: int)
    ensures
        crate::guest_memory::overlap_end(exclusions, address, len) is None <==> forall|i: int|
            0 <= i < exclusions.len() ==> !(address < (#[trigger] exclusions[i]).1
                && exclusions[i].0 < address + len),
    decreases exclusions.len(),
{
    if exclusions.len() > 0 {
        let rest = exclusions.drop_first();
        lemma_nothing_excluded(rest, address, len);
        if !(address < exclusions[0].1 && exclusions[0].0 < address + len) {
            if crate::guest_memory::overlap_end(rest, address, len) is None {
                assert forall|i: int| 0 <= i < exclusions.len() implies !(address < (
                #[trigger] exclusions[i]).1 && exclusions[i].0 < address + len) by {
                    if i > 0 {
                        assert(rest[i - 1] == exclusions[i]);
                    }
                }
            } else {
                let i = choose|i: int|
                    0 <= i < rest.len() && address < (#[trigger] rest[i]).1 && rest[i].0 < address
                        + len;
                assert(exclusions[i + 1] == rest[i]);
            }
        } else {
            assert(exclusions[0] == exclusions[0]);
        }
    }
}

/// Native blocks end below the limit of the heap and below the limit of the
/// application where it set one, whichever is less.
pub proof fn allocation_limit_is_the_lesser(manager: ManagerModel, heap_limit: u32)
    ensures
        ({
            let limit = manager.allocation_limit(heap_limit);
            &&& limit <= heap_limit
            &&& manager.application_limit matches Some(own) ==> limit <= own && (limit == own
                || limit == heap_limit)
            &&& manager.application_limit is None ==> limit == heap_limit
        }),
{
}

/// A writable native heap with room behind its last block serves a request for
/// a fixed block: the block is recorded with the size that was asked for, reads
/// as zero where that was asked for, and lies below the limit.
pub proof fn native_heap_with_room_serves_a_request(
    manager: ManagerModel,
    space: SpaceModel,
    size: u32,
    clear: bool,
)
    requires
        crate::native_blocks::native_blocks_apart(manager),
        crate::native_laws::writable_from(space, manager.native->0.heap.heap_base as int),
        size <= u32::MAX - 15,
        crate::native_heap::native_bounds(
            space.exclusions,
            manager.native->0.heap.heap_cursor,
            manager.allocation_limit(manager.native->0.heap.heap_limit),
            crate::native_heap::native_size(size)->0,
        ) is Some,
    ensures
        ({
            let (after, ready, ptr) = manager.new_native_ptr(space, size, clear);
            let limit = manager.allocation_limit(manager.native->0.heap.heap_limit);
            &&& ptr != 0
            &&& after.last_error() == 0
            &&& after.native->0.ptrs.last().ptr == ptr
            &&& after.native->0.ptrs.last().size == size
            &&& after.native->0.ptrs.drop_last() == manager.native->0.ptrs
            &&& after.dirty
            &&& ptr + size <= limit
            &&& ready.accepts(ptr as int, size as int)
            &&& ready.mapped(ptr as int, size as int)
            &&& clear && (space.mapped(
                ptr as int,
                crate::native_heap::native_size(size)->0 as int,
            ) || forall|a: int|
                ptr <= a < ptr + size ==> !#[trigger] space.bytes.dom().contains(a)) ==> forall|
                a: int,
            |
                ptr <= a < ptr + size ==> #[trigger] ready.bytes[a] == 0
        }),
{
    let native = manager.native->0;
    let limit = manager.allocation_limit(native.heap.heap_limit);
    let required = crate::native_heap::native_size(size)->0;
    native_blocks_come_in_units(size);
    crate::native_heap::lemma_best_ptr(native.free_ptrs, required, limit, None);
    crate::classic_heap::lemma_round_up(native.heap.heap_cursor as int, 16);
    crate::native_heap::lemma_bounds_from(
        space.exclusions,
        crate::classic_heap::round_up(native.heap.heap_cursor as int, 16),
        limit,
        required,
    );
    let (ptr, reused, cursor) = crate::memory_model::place_block(
        native,
        space.exclusions,
        limit,
        required,
        None,
    )->0;
    if reused >= 0 {
        native_blocks_come_in_units(native.free_ptrs[reused].size);
        assert(crate::native_blocks::has_block(manager, (1, reused)));
        assert(crate::native_blocks::block_inside(manager, (1, reused)));
    }
    crate::native_laws::lemma_prepared_writable(
        space,
        ptr,
        required,
        clear,
        native.heap.heap_base as int,
    );
    let (after, ready, given) = manager.new_native_ptr(space, size, clear);
    assert(given == ptr);
    assert(after.native->0.ptrs.drop_last() =~= native.ptrs);
    assert forall|a: int| ptr <= a < ptr + size implies #[trigger] ready.bytes.dom().contains(
        a,
    ) by {
        assert(ready.writable.contains(a) || !space.mapped(ptr as int, required as int));
        lemma_cleared(space, ptr, required, clear, a);
    }
    assert forall|a: int|
        ptr <= a < ptr + size && clear && (space.mapped(ptr as int, required as int)
            || !space.bytes.dom().contains(a)) implies #[trigger] ready.bytes[a] == 0 by {
        lemma_cleared(space, ptr, required, clear, a);
    }
}

proof fn lemma_cleared(space: SpaceModel, ptr: u32, required: u32, clear: bool, a: int)
    requires
        ptr <= a < ptr + required,
        ptr + required <= u32::MAX,
    ensures
        crate::memory_model::prepared(space, ptr, required, clear) matches Some(ready) ==> {
            &&& ready.bytes.dom().contains(a)
            &&& clear && (space.mapped(ptr as int, required as int) || !space.bytes.dom().contains(
                a,
            )) ==> ready.bytes[a] == 0
        },
{
}

} // verus!
