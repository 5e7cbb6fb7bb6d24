//! The classic application heap: a bump cursor, size buckets of recycled
//! blocks, and reserved spans that allocation steps over.

use crate::assoc::AssocMap;
use crate::cells::{CellDefault, CellValue};
use vstd::prelude::*;

verus! {

/// First address of the classic heap.
pub const CLASSIC_HEAP_BASE: u32 = 0x20_0000;

/// The least multiple of `step` that is not below `value`.
pub open spec fn round_up(value: int, step: int) -> int {
    (value + (step - 1)) / step * step
}

pub proof fn lemma_round_up(value: int, step: int)
    requires
        0 <= value,
        0 < step,
    ensures
        value <= round_up(value, step) < value + step,
        round_up(value, step) % step == 0,
{
    let sum = value + (step - 1);
    vstd::arithmetic::div_mod::lemma_fundamental_div_mod(sum, step);
    vstd::arithmetic::div_mod::lemma_mod_bound(sum, step);
    vstd::arithmetic::mul::lemma_mul_is_commutative(step, sum / step);
    vstd::arithmetic::div_mod::lemma_mod_multiples_basic(sum / step, step);
}

/// Capacity of the block that serves a request.
pub open spec fn bucket_size(size: int) -> int {
    if round_up(size, 4) < 4 {
        4
    } else {
        round_up(size, 4)
    }
}

/// Whether a recycled block is not out of proportion to a request.
pub open spec fn bucket_suits(bucket: int, requested: int) -> bool {
    let twice = if 2 * requested > u32::MAX { u32::MAX as int } else { 2 * requested };
    let most = if twice + 4096 > u32::MAX { u32::MAX as int } else { twice + 4096 };
    bucket <= if requested <= 1024 { 4096 } else { most }
}

pub open spec fn ranges_meet(range: (u32, u32), start: int, end: int) -> bool {
    start < range.1 && range.0 < end
}

/// Whether a block meets a reserved span or leaves the address range.
pub open spec fn meets_reserved(reserved: Seq<(u32, u32)>, address: int, len: int) -> bool {
    ||| address + len > u32::MAX
    ||| exists|i: int|
        0 <= i < reserved.len() && ranges_meet(#[trigger] reserved[i], address, address + len)
}

/// Whether a recycled block of `bucket` bytes can be handed out.
pub open spec fn usable(
    reserved: Seq<(u32, u32)>,
    address: u32,
    bucket: u32,
    alignment: u32,
) -> bool {
    &&& alignment == 4 || address % alignment == 0
    &&& !meets_reserved(reserved, address as int, bucket as int)
}

pub open spec fn first_usable(
    reserved: Seq<(u32, u32)>,
    blocks: Seq<u32>,
    bucket: u32,
    alignment: u32,
) -> Option<u32>
    decreases blocks.len(),
{
    if blocks.len() == 0 {
        None
    } else if usable(reserved, blocks[0], bucket, alignment) {
        Some(blocks[0])
    } else {
        first_usable(reserved, blocks.drop_first(), bucket, alignment)
    }
}

pub open spec fn last_usable(
    reserved: Seq<(u32, u32)>,
    blocks: Seq<u32>,
    bucket: u32,
    alignment: u32,
) -> Option<u32>
    decreases blocks.len(),
{
    if blocks.len() == 0 {
        None
    } else if usable(reserved, blocks.last(), bucket, alignment) {
        Some(blocks.last())
    } else {
        last_usable(reserved, blocks.drop_last(), bucket, alignment)
    }
}

/// End of the first reserved span that meets a block.
pub open spec fn first_meeting(reserved: Seq<(u32, u32)>, start: int, end: int) -> Option<u32>
    decreases reserved.len(),
{
    if reserved.len() == 0 {
        None
    } else if ranges_meet(reserved[0], start, end) {
        Some(reserved[0].1)
    } else {
        first_meeting(reserved.drop_first(), start, end)
    }
}

pub proof fn lemma_first_meeting(reserved: Seq<(u32, u32)>, start: int, end: int)
    ensures
        first_meeting(reserved, start, end) matches Some(stop) ==> start < stop,
        first_meeting(reserved, start, end) is None <==> forall|i: int|
            0 <= i < reserved.len() ==> !ranges_meet(#[trigger] reserved[i], start, end),
    decreases reserved.len(),
{
    if reserved.len() > 0 {
        let rest = reserved.drop_first();
        lemma_first_meeting(rest, start, end);
        if ranges_meet(reserved[0], start, end) {
        } else {
            if first_meeting(rest, start, end) is None {
                assert forall|i: int| 0 <= i < reserved.len() implies !ranges_meet(
                    #[trigger] reserved[i],
                    start,
                    end,
                ) by {
                    if i > 0 {
                        assert(rest[i - 1] == reserved[i]);
                    }
                }
            } else {
                assert(exists|i: int| 0 <= i < rest.len() && ranges_meet(#[trigger] rest[i], start, end));
                let i = choose|i: int|
                    0 <= i < rest.len() && ranges_meet(#[trigger] rest[i], start, end);
                assert(reserved[i + 1] == rest[i]);
            }
        }
    }
}

/// Where the cursor can place a block at or after `ptr`, stepping over
/// reserved spans: the block and what follows it.
pub open spec fn bump_from(
    reserved: Seq<(u32, u32)>,
    ptr: int,
    size: int,
    alignment: int,
) -> Option<(u32, u32)>
    decreases u32::MAX - ptr,
    when 0 < alignment && 0 <= ptr && 0 <= size
    via bump_from_decreases
{
    if ptr + size > u32::MAX {
        None
    } else {
        match first_meeting(reserved, ptr, ptr + size) {
            None => Some((ptr as u32, (ptr + size) as u32)),
            Some(end) => if end + (alignment - 1) > u32::MAX {
                None
            } else {
                bump_from(reserved, round_up(end as int, alignment), size, alignment)
            },
        }
    }
}

#[via_fn]
proof fn bump_from_decreases(reserved: Seq<(u32, u32)>, ptr: int, size: int, alignment: int) {
    lemma_first_meeting(reserved, ptr, ptr + size);
    if let Some(end) = first_meeting(reserved, ptr, ptr + size) {
        lemma_round_up(end as int, alignment);
    }
}

/// What a classic heap holds.
#[verifier::ext_equal]
pub struct HeapModel {
    /// Identity of the process that claimed the heap.
    pub owner: Option<usize>,
    /// The bump cursor.
    pub heap_ptr: u32,
    /// Recycled blocks by capacity, oldest first.
    pub free: Map<u32, Seq<u32>>,
    /// Logical size of each live block.
    pub sizes: Map<u32, u32>,
    /// Spans that allocation steps over.
    pub reserved: Seq<(u32, u32)>,
    /// Capacity of the live blocks that keep more than their size asks for.
    pub buckets: Map<u32, u32>,
}

#[derive(Clone, Copy)]
pub enum ClassicAllocationPlanSource {
    Free { bucket: u32, retains_capacity: bool },
    Bump { previous_heap_ptr: u32, next_heap_ptr: u32 },
}

/// An allocation that was chosen but not committed.
#[derive(Clone, Copy)]
pub struct ClassicAllocationPlan {
    pub address: u32,
    pub requested_size: u32,
    pub aligned_size: u32,
    pub alignment: u32,
    pub heap_limit: u32,
    pub source: ClassicAllocationPlanSource,
}

impl ClassicAllocationPlan {
    pub open spec fn spec_capacity(self) -> u32 {
        match self.source {
            ClassicAllocationPlanSource::Free { bucket, .. } => bucket,
            ClassicAllocationPlanSource::Bump { .. } => self.aligned_size,
        }
    }

    /// Bytes that the planned block occupies.
    pub fn capacity(self) -> (capacity: u32)
        ensures
            capacity == self.spec_capacity(),
    {
        match self.source {
            ClassicAllocationPlanSource::Free { bucket, .. } => bucket,
            ClassicAllocationPlanSource::Bump { .. } => self.aligned_size,
        }
    }
}

pub open spec fn power_of_two(value: u32) -> bool {
    value != 0 && value & ((value - 1) as u32) == 0
}

pub open spec fn effective_alignment(alignment: u32) -> u32 {
    if alignment > 4 && power_of_two(alignment) {
        alignment
    } else {
        4
    }
}

/// The list without position `index`; the last element takes its place.
pub open spec fn swap_removed<T>(list: Seq<T>, index: int) -> Seq<T> {
    list.update(index, list.last()).drop_last()
}

/// The first position of an element, or a negative number.
pub open spec fn first_index(list: Seq<u32>, element: u32) -> int
    decreases list.len(),
{
    if list.len() == 0 {
        -1
    } else if list[0] == element {
        0
    } else {
        let rest = first_index(list.drop_first(), element);
        if rest < 0 {
            -1
        } else {
            rest + 1
        }
    }
}

proof fn lemma_first_index(list: Seq<u32>, element: u32, index: int)
    requires
        0 <= index < list.len(),
        list[index] == element,
        forall|j: int| 0 <= j < index ==> list[j] != element,
    ensures
        first_index(list, element) == index,
    decreases list.len(),
{
    if index > 0 {
        let rest = list.drop_first();
        assert forall|j: int| 0 <= j < index - 1 implies rest[j] != element by {
            assert(list[j + 1] != element);
        }
        lemma_first_index(rest, element, index - 1);
    }
}

proof fn lemma_first_index_absent(list: Seq<u32>, element: u32)
    requires
        forall|j: int| 0 <= j < list.len() ==> list[j] != element,
    ensures
        first_index(list, element) < 0,
    decreases list.len(),
{
    if list.len() > 0 {
        let rest = list.drop_first();
        assert forall|j: int| 0 <= j < rest.len() implies rest[j] != element by {
            assert(list[j + 1] != element);
        }
        lemma_first_index_absent(rest, element);
    }
}

impl HeapModel {
    /// A heap that nothing was allocated from.
    pub open spec fn fresh() -> HeapModel {
        HeapModel {
            owner: None,
            heap_ptr: CLASSIC_HEAP_BASE,
            free: Map::empty(),
            sizes: Map::empty(),
            reserved: Seq::empty(),
            buckets: Map::empty(),
        }
    }

    pub open spec fn pristine(self) -> bool {
        &&& self.heap_ptr == CLASSIC_HEAP_BASE
        &&& self.free == Map::<u32, Seq<u32>>::empty()
        &&& self.sizes == Map::<u32, u32>::empty()
        &&& self.reserved == Seq::<(u32, u32)>::empty()
        &&& self.buckets == Map::<u32, u32>::empty()
    }

    /// The size of every live block rounds up within the address range.
    pub open spec fn sized(self) -> bool {
        forall|address: u32| #[trigger]
            self.sizes.dom().contains(address) ==> self.sizes[address] <= u32::MAX - 3
    }

    /// The block of `bucket` bytes that would be handed out: the one freed
    /// last, or for a stricter alignment the one freed first.
    pub open spec fn pick(self, bucket: u32, alignment: u32) -> Option<u32> {
        if alignment == 4 {
            last_usable(self.reserved, self.free[bucket], bucket, alignment)
        } else {
            first_usable(self.reserved, self.free[bucket], bucket, alignment)
        }
    }

    pub open spec fn candidate(self, bucket: u32, aligned_size: u32, alignment: u32) -> bool {
        &&& self.free.dom().contains(bucket)
        &&& bucket > aligned_size
        &&& bucket_suits(bucket as int, aligned_size as int)
        &&& self.pick(bucket, alignment) is Some
    }

    /// The least larger bucket that can serve a request.
    pub open spec fn best(self, bucket: u32, aligned_size: u32, alignment: u32) -> bool {
        &&& self.candidate(bucket, aligned_size, alignment)
        &&& forall|other: u32| #[trigger]
            self.candidate(other, aligned_size, alignment) ==> bucket <= other
    }

    pub open spec fn best_bucket(self, aligned_size: u32, alignment: u32) -> Option<u32> {
        if exists|bucket: u32| self.best(bucket, aligned_size, alignment) {
            Some(choose|bucket: u32| self.best(bucket, aligned_size, alignment))
        } else {
            None
        }
    }

    /// Where the cursor would place a block.
    pub open spec fn bump(self, size: u32, alignment: u32) -> Option<(u32, u32)> {
        if self.heap_ptr + (alignment - 1) > u32::MAX {
            None
        } else {
            bump_from(
                self.reserved,
                round_up(self.heap_ptr as int, alignment as int),
                size as int,
                alignment as int,
            )
        }
    }

    /// The allocation that a request gets: a recycled block of its own
    /// capacity, else one of the least larger capacity that suits, else room
    /// at the cursor below `heap_limit`.
    pub open spec fn plan(self, size: u32, alignment: u32, heap_limit: u32) -> Option<
        ClassicAllocationPlan,
    > {
        let alignment = effective_alignment(alignment);
        if size > u32::MAX - 3 {
            None
        } else {
            let aligned_size = bucket_size(size as int) as u32;
            let from_free = |address: u32, bucket: u32, retains_capacity: bool|
                Some(
                    ClassicAllocationPlan {
                        address,
                        requested_size: size,
                        aligned_size,
                        alignment,
                        heap_limit,
                        source: ClassicAllocationPlanSource::Free { bucket, retains_capacity },
                    },
                );
            let exact = if self.free.dom().contains(aligned_size) {
                self.pick(aligned_size, alignment)
            } else {
                None
            };
            match exact {
                Some(address) => from_free(address, aligned_size, false),
                None => match self.best_bucket(aligned_size, alignment) {
                    Some(bucket) => from_free(self.pick(bucket, alignment)->0, bucket, true),
                    None => match self.bump(aligned_size, alignment) {
                        Some((address, next)) => if next >= heap_limit {
                            None
                        } else {
                            Some(
                                ClassicAllocationPlan {
                                    address,
                                    requested_size: size,
                                    aligned_size,
                                    alignment,
                                    heap_limit,
                                    source: ClassicAllocationPlanSource::Bump {
                                        previous_heap_ptr: self.heap_ptr,
                                        next_heap_ptr: next,
                                    },
                                },
                            )
                        },
                        None => None,
                    },
                },
            }
        }
    }

    /// Whether a plan can still be carried out.
    pub open spec fn admits(self, plan: ClassicAllocationPlan) -> bool {
        &&& !self.sizes.dom().contains(plan.address)
        &&& !meets_reserved(self.reserved, plan.address as int, plan.spec_capacity() as int)
        &&& match plan.source {
            ClassicAllocationPlanSource::Free { bucket, .. } => self.free.dom().contains(bucket)
                && first_index(self.free[bucket], plan.address) >= 0,
            ClassicAllocationPlanSource::Bump { previous_heap_ptr, next_heap_ptr } => {
                &&& self.heap_ptr == previous_heap_ptr
                &&& self.bump(plan.aligned_size, plan.alignment) == Some(
                    (plan.address, next_heap_ptr),
                )
                &&& next_heap_ptr < plan.heap_limit
            },
        }
    }

    /// The heap after a plan was carried out.
    pub open spec fn commit(self, plan: ClassicAllocationPlan) -> HeapModel {
        let placed = match plan.source {
            ClassicAllocationPlanSource::Free { bucket, retains_capacity } => HeapModel {
                free: self.free.insert(
                    bucket,
                    swap_removed(self.free[bucket], first_index(self.free[bucket], plan.address)),
                ),
                buckets: if retains_capacity {
                    self.buckets.insert(plan.address, bucket)
                } else {
                    self.buckets
                },
                ..self
            },
            ClassicAllocationPlanSource::Bump { next_heap_ptr, .. } => HeapModel {
                heap_ptr: next_heap_ptr,
                ..self
            },
        };
        HeapModel { sizes: self.sizes.insert(plan.address, plan.requested_size), ..placed }
    }

    /// The heap and the address after a request; zero where it was refused.
    pub open spec fn allocate(self, size: u32, alignment: u32, heap_limit: u32) -> (HeapModel, u32) {
        match self.plan(size, alignment, heap_limit) {
            Some(plan) => if self.admits(plan) {
                (self.commit(plan), plan.address)
            } else {
                (self, 0)
            },
            None => (self, 0),
        }
    }

    /// Whether a process may claim the heap.
    pub open spec fn claimable(self, owner: usize) -> bool {
        self.owner is None || self.owner == Some(owner)
    }

    /// The heap after the cursor moved up to an address.
    pub open spec fn reserve_until(self, end_addr: u32) -> HeapModel {
        HeapModel {
            heap_ptr: if self.heap_ptr >= round_up(end_addr as int, 4) {
                self.heap_ptr
            } else {
                round_up(end_addr as int, 4) as u32
            },
            ..self
        }
    }

    /// The heap after a span was reserved.
    pub open spec fn reserve_range(self, start: u32, end: u32) -> HeapModel {
        HeapModel { reserved: with_reserved(self.reserved, reserved_span(start, end)), ..self }
    }

    /// Logical size of a live block.
    pub open spec fn size_of(self, address: u32) -> Option<u32> {
        if self.sizes.dom().contains(address) {
            Some(self.sizes[address])
        } else {
            None
        }
    }

    /// Capacity of a live block.
    pub open spec fn capacity_of(self, address: u32) -> Option<u32> {
        if !self.sizes.dom().contains(address) {
            None
        } else if self.buckets.dom().contains(address) {
            Some(self.buckets[address])
        } else {
            Some(bucket_size(self.sizes[address] as int) as u32)
        }
    }

    /// The heap after a live block got another logical size.
    pub open spec fn resize(self, address: u32, size: u32) -> HeapModel {
        match self.capacity_of(address) {
            Some(capacity) => HeapModel {
                sizes: self.sizes.insert(address, size),
                buckets: self.buckets.insert(address, capacity),
                ..self
            },
            None => self,
        }
    }

    /// The heap after a block was released.
    pub open spec fn release(self, address: u32) -> HeapModel {
        match self.capacity_of(address) {
            Some(bucket) => if address == 0 {
                self
            } else {
                HeapModel {
                    sizes: self.sizes.remove(address),
                    buckets: self.buckets.remove(address),
                    free: self.free.insert(
                        bucket,
                        (if self.free.dom().contains(bucket) {
                            self.free[bucket]
                        } else {
                            Seq::empty()
                        }).push(address),
                    ),
                    ..self
                }
            },
            None => self,
        }
    }
}

/// Classic heap bookkeeping of one process.
pub struct ClassicHeapAllocatorState {
    owner_id: Option<usize>,
    heap_ptr: u32,
    free_blocks: AssocMap<u32, Vec<u32>>,
    alloc_sizes: AssocMap<u32, u32>,
    reserved_heap_ranges: Vec<(u32, u32)>,
    alloc_bucket_sizes: AssocMap<u32, u32>,
}

pub open spec fn block_lists(map: Map<u32, Vec<u32>>) -> Map<u32, Seq<u32>> {
    Map::new(|bucket: u32| map.dom().contains(bucket), |bucket: u32| map[bucket]@)
}

impl View for ClassicHeapAllocatorState {
    type V = HeapModel;

    closed spec fn view(&self) -> HeapModel {
        HeapModel {
            owner: self.owner_id,
            heap_ptr: self.heap_ptr,
            free: block_lists(self.free_blocks@),
            sizes: self.alloc_sizes@,
            reserved: self.reserved_heap_ranges@,
            buckets: self.alloc_bucket_sizes@,
        }
    }
}

fn is_power_of_two(value: u32) -> (result: bool)
    ensures
        result == power_of_two(value),
{
    value != 0 && value & (value - 1) == 0
}

fn round_up_checked(value: u32, step: u32) -> (rounded: Option<u32>)
    requires
        step > 0,
    ensures
        rounded == (if value + (step - 1) > u32::MAX {
            None::<u32>
        } else {
            Some(round_up(value as int, step as int) as u32)
        }),
        rounded matches Some(rounded) ==> rounded == round_up(value as int, step as int),
{
    proof {
        lemma_round_up(value as int, step as int);
    }
    match value.checked_add(step - 1) {
        Some(sum) => {
            proof {
                vstd::arithmetic::div_mod::lemma_fundamental_div_mod(sum as int, step as int);
                vstd::arithmetic::mul::lemma_mul_is_commutative(
                    step as int,
                    sum as int / step as int,
                );
            }
            Some(sum / step * step)
        },
        None => None,
    }
}

impl ClassicHeapAllocatorState {
    /// A heap that nothing was allocated from.
    pub fn new() -> (heap: Self)
        ensures
            heap@ == HeapModel::fresh(),
    {
        let heap = ClassicHeapAllocatorState {
            owner_id: None,
            heap_ptr: CLASSIC_HEAP_BASE,
            free_blocks: AssocMap::new(),
            alloc_sizes: AssocMap::new(),
            reserved_heap_ranges: Vec::new(),
            alloc_bucket_sizes: AssocMap::new(),
        };
        assert(heap@.free =~= Map::empty());
        heap
    }

    /// The process that claimed the heap.
    pub fn owner_id(&self) -> (owner: Option<usize>)
        ensures
            owner == self@.owner,
    {
        self.owner_id
    }

    pub fn set_owner_id(&mut self, owner: Option<usize>)
        ensures
            final(self)@ == (HeapModel { owner, ..old(self)@ }),
    {
        self.owner_id = owner;
    }

    /// Whether nothing was ever allocated or reserved.
    pub fn is_pristine(&self) -> (pristine: bool)
        ensures
            pristine == self@.pristine(),
    {
        let no_free = self.free_blocks.is_empty();
        proof {
            if self.free_blocks@ == Map::<u32, Vec<u32>>::empty() {
                assert(self@.free =~= Map::empty());
            } else {
                if self@.free == Map::<u32, Seq<u32>>::empty() {
                    assert forall|b: u32| !self.free_blocks@.dom().contains(b) by {
                        assert(!self@.free.dom().contains(b));
                    }
                    assert(self.free_blocks@ =~= Map::empty());
                }
            }
        }
        let no_reserved = self.reserved_heap_ranges.len() == 0;
        proof {
            if self.reserved_heap_ranges@.len() == 0 {
                assert(self.reserved_heap_ranges@ =~= Seq::empty());
            }
        }
        self.heap_ptr == CLASSIC_HEAP_BASE && no_free && self.alloc_sizes.is_empty() && no_reserved
            && self.alloc_bucket_sizes.is_empty()
    }

    /// Logical size of a live block.
    pub fn allocation_size(&self, address: u32) -> (size: Option<u32>)
        ensures
            size == self@.size_of(address),
    {
        match self.alloc_sizes.get(&address) {
            Some(size) => Some(*size),
            None => None,
        }
    }

    /// Capacity of a live block.
    pub fn allocation_capacity(&self, address: u32) -> (capacity: Option<u32>)
        requires
            self@.sized(),
        ensures
            capacity == self@.capacity_of(address),
    {
        match self.alloc_sizes.get(&address) {
            Some(size) => match self.alloc_bucket_sizes.get(&address) {
                Some(bucket) => Some(*bucket),
                None => Some(Self::allocation_bucket_size(*size)),
            },
            None => None,
        }
    }

    /// Capacity of the block that serves a request.
    pub fn allocation_bucket_size(size: u32) -> (bucket: u32)
        requires
            size <= u32::MAX - 3,
        ensures
            bucket == bucket_size(size as int),
    {
        proof {
            lemma_round_up(size as int, 4);
        }
        let rounded: u32 = (size + 3) / 4 * 4;
        if rounded < 4 {
            4
        } else {
            rounded
        }
    }

    pub(crate) fn checked_allocation_bucket_size(size: u32) -> (bucket: Option<u32>)
        ensures
            bucket == (if size > u32::MAX - 3 {
                None::<u32>
            } else {
                Some(bucket_size(size as int) as u32)
            }),
            bucket matches Some(bucket) ==> bucket == bucket_size(size as int),
    {
        if size > u32::MAX - 3 {
            None
        } else {
            Some(Self::allocation_bucket_size(size))
        }
    }

    fn can_reuse_bucket_for_request(bucket: u32, requested: u32) -> (suits: bool)
        ensures
            suits == bucket_suits(bucket as int, requested as int),
    {
        let max_bucket: u32 = if requested <= 1024 {
            4096
        } else if requested > 0x7fff_ffff {
            u32::MAX
        } else {
            (requested * 2).saturating_add(4096)
        };
        bucket <= max_bucket
    }

    fn range_overlaps_reserved(&self, address: u32, len: u32) -> (meets: bool)
        ensures
            meets == meets_reserved(self@.reserved, address as int, len as int),
    {
        match address.checked_add(len) {
            None => true,
            Some(end) => {
                let mut i: usize = 0;
                while i < self.reserved_heap_ranges.len()
                    invariant
                        i <= self.reserved_heap_ranges@.len(),
                        end == address + len,
                        forall|j: int|
                            0 <= j < i ==> !ranges_meet(
                                #[trigger] self.reserved_heap_ranges@[j],
                                address as int,
                                end as int,
                            ),
                    decreases self.reserved_heap_ranges@.len() - i,
                {
                    let (start, stop) = self.reserved_heap_ranges[i];
                    if address < stop && start < end {
                        assert(ranges_meet(self@.reserved[i as int], address as int, end as int));
                        return true;
                    }
                    i += 1;
                }
                false
            },
        }
    }

    fn first_reserved_meeting(&self, start: u32, end: u32) -> (stop: Option<u32>)
        ensures
            stop == first_meeting(self@.reserved, start as int, end as int),
    {
        let mut i: usize = 0;
        let ghost reserved = self.reserved_heap_ranges@;
        assert(reserved.skip(0) =~= reserved);
        while i < self.reserved_heap_ranges.len()
            invariant
                i <= reserved.len(),
                reserved == self.reserved_heap_ranges@,
                first_meeting(reserved, start as int, end as int) == first_meeting(
                    reserved.skip(i as int),
                    start as int,
                    end as int,
                ),
            decreases reserved.len() - i,
        {
            let (low, high) = self.reserved_heap_ranges[i];
            assert(reserved.skip(i as int)[0] == reserved[i as int]);
            if start < high && low < end {
                return Some(high);
            }
            assert(reserved.skip(i as int).drop_first() =~= reserved.skip(i + 1));
            i += 1;
        }
        None
    }

    fn bump_allocation_address(&self, size: u32, alignment: u32) -> (placed: Option<(u32, u32)>)
        requires
            alignment > 0,
        ensures
            placed == self@.bump(size, alignment),
    {
        let mut ptr: u32 = match round_up_checked(self.heap_ptr, alignment) {
            Some(ptr) => ptr,
            None => {
                return None;
            },
        };
        loop
            invariant
                alignment > 0,
                self@.bump(size, alignment) == bump_from(
                    self@.reserved,
                    ptr as int,
                    size as int,
                    alignment as int,
                ),
            decreases u32::MAX - ptr,
        {
            let next: u32 = match ptr.checked_add(size) {
                Some(next) => next,
                None => {
                    return None;
                },
            };
            proof {
                lemma_first_meeting(self@.reserved, ptr as int, ptr + size);
            }
            match self.first_reserved_meeting(ptr, next) {
                None => {
                    return Some((ptr, next));
                },
                Some(end) => match round_up_checked(end, alignment) {
                    Some(moved) => {
                        proof {
                            lemma_round_up(end as int, alignment as int);
                        }
                        ptr = moved;
                    },
                    None => {
                        return None;
                    },
                },
            }
        }
    }

    fn pick_block(&self, bucket: u32, alignment: u32) -> (picked: Option<u32>)
        requires
            alignment > 0,
        ensures
            picked == (if self@.free.dom().contains(bucket) {
                self@.pick(bucket, alignment)
            } else {
                None::<u32>
            }),
    {
        let blocks = match self.free_blocks.get(&bucket) {
            Some(blocks) => blocks,
            None => {
                return None;
            },
        };
        let ghost list = blocks@;
        assert(self@.free[bucket] == list);
        if alignment == 4 {
            let mut n: usize = blocks.len();
            assert(list.take(n as int) =~= list);
            while n > 0
                invariant
                    n <= list.len(),
                    list == blocks@,
                    alignment == 4,
                    self@.free.dom().contains(bucket),
                    self@.free[bucket] == list,
                    last_usable(self@.reserved, list, bucket, alignment) == last_usable(
                        self@.reserved,
                        list.take(n as int),
                        bucket,
                        alignment,
                    ),
                decreases n,
            {
                let address: u32 = blocks[n - 1];
                assert(list.take(n as int).last() == address);
                if !self.range_overlaps_reserved(address, bucket) {
                    return Some(address);
                }
                assert(list.take(n as int).drop_last() =~= list.take(n - 1));
                n -= 1;
            }
            None
        } else {
            let mut i: usize = 0;
            assert(list.skip(0) =~= list);
            while i < blocks.len()
                invariant
                    i <= list.len(),
                    list == blocks@,
                    alignment > 0,
                    alignment != 4,
                    self@.free.dom().contains(bucket),
                    self@.free[bucket] == list,
                    first_usable(self@.reserved, list, bucket, alignment) == first_usable(
                        self@.reserved,
                        list.skip(i as int),
                        bucket,
                        alignment,
                    ),
                decreases list.len() - i,
            {
                let address: u32 = blocks[i];
                assert(list.skip(i as int)[0] == address);
                if address % alignment == 0 && !self.range_overlaps_reserved(address, bucket) {
                    return Some(address);
                }
                assert(list.skip(i as int).drop_first() =~= list.skip(i + 1));
                i += 1;
            }
            None
        }
    }

    fn best_bucket(&self, aligned_size: u32, alignment: u32) -> (best: Option<(u32, u32)>)
        requires
            alignment > 0,
        ensures
            match best {
                Some((bucket, address)) => self@.best_bucket(aligned_size, alignment) == Some(
                    bucket,
                ) && self@.pick(bucket, alignment) == Some(address),
                None => self@.best_bucket(aligned_size, alignment) is None,
            },
    {
        let n: usize = self.free_blocks.count();
        let ghost keys = self.free_blocks.key_list();
        let mut best: Option<(u32, u32)> = None;
        let mut i: usize = 0;
        while i < n
            invariant
                alignment > 0,
                i <= n,
                n == keys.len(),
                keys == self.free_blocks.key_list(),
                match best {
                    Some((bucket, address)) => {
                        &&& self@.candidate(bucket, aligned_size, alignment)
                        &&& self@.pick(bucket, alignment) == Some(address)
                        &&& forall|j: int|
                            0 <= j < i && self@.candidate(#[trigger] keys[j], aligned_size, alignment)
                                ==> bucket <= keys[j]
                    },
                    None => forall|j: int|
                        0 <= j < i ==> !self@.candidate(#[trigger] keys[j], aligned_size, alignment),
                },
            decreases n - i,
        {
            let (key, _) = self.free_blocks.entry_at(i);
            let bucket: u32 = *key;
            if bucket > aligned_size && Self::can_reuse_bucket_for_request(bucket, aligned_size) {
                match self.pick_block(bucket, alignment) {
                    Some(address) => {
                        let better = match best {
                            Some((known, _)) => bucket < known,
                            None => true,
                        };
                        if better {
                            best = Some((bucket, address));
                        }
                    },
                    None => {},
                }
            }
            i += 1;
        }
        proof {
            assert forall|bucket: u32| self@.free.dom().contains(bucket) implies keys.contains(
                bucket,
            ) by {
                assert(self.free_blocks@.dom().contains(bucket));
            }
            match best {
                Some((bucket, _)) => {
                    assert forall|other: u32| #[trigger]
                        self@.candidate(other, aligned_size, alignment) implies bucket <= other by {
                        assert(keys.contains(other));
                        let j = choose|j: int| 0 <= j < keys.len() && keys[j] == other;
                        assert(self@.candidate(keys[j], aligned_size, alignment));
                    }
                    assert(self@.best(bucket, aligned_size, alignment));
                    let chosen = choose|b: u32| self@.best(b, aligned_size, alignment);
                    assert(self@.best(chosen, aligned_size, alignment));
                    assert(self@.candidate(chosen, aligned_size, alignment));
                    assert(chosen == bucket);
                },
                None => {
                    assert forall|bucket: u32| !self@.best(bucket, aligned_size, alignment) by {
                        if self@.candidate(bucket, aligned_size, alignment) {
                            assert(keys.contains(bucket));
                            let j = choose|j: int| 0 <= j < keys.len() && keys[j] == bucket;
                            assert(!self@.candidate(keys[j], aligned_size, alignment));
                        }
                    }
                },
            }
        }
        best
    }

    /// Choose an allocation for a request without changing the heap.
    pub fn allocation_plan(&self, size: u32, alignment: u32, heap_limit: u32) -> (plan: Option<
        ClassicAllocationPlan,
    >)
        ensures
            plan == self@.plan(size, alignment, heap_limit),
    {
        let alignment: u32 = if alignment > 4 && is_power_of_two(alignment) {
            alignment
        } else {
            4
        };
        let aligned_size: u32 = match Self::checked_allocation_bucket_size(size) {
            Some(aligned_size) => aligned_size,
            None => {
                return None;
            },
        };
        if let Some(address) = self.pick_block(aligned_size, alignment) {
            return Some(
                ClassicAllocationPlan {
                    address,
                    requested_size: size,
                    aligned_size,
                    alignment,
                    heap_limit,
                    source: ClassicAllocationPlanSource::Free {
                        bucket: aligned_size,
                        retains_capacity: false,
                    },
                },
            );
        }
        if let Some((bucket, address)) = self.best_bucket(aligned_size, alignment) {
            return Some(
                ClassicAllocationPlan {
                    address,
                    requested_size: size,
                    aligned_size,
                    alignment,
                    heap_limit,
                    source: ClassicAllocationPlanSource::Free { bucket, retains_capacity: true },
                },
            );
        }
        match self.bump_allocation_address(aligned_size, alignment) {
            Some((address, next_heap_ptr)) => {
                if next_heap_ptr >= heap_limit {
                    return None;
                }
                Some(
                    ClassicAllocationPlan {
                        address,
                        requested_size: size,
                        aligned_size,
                        alignment,
                        heap_limit,
                        source: ClassicAllocationPlanSource::Bump {
                            previous_heap_ptr: self.heap_ptr,
                            next_heap_ptr,
                        },
                    },
                )
            },
            None => None,
        }
    }

    /// Carry a plan out. A plan that no longer fits changes nothing.
    pub fn commit_allocation_plan(&mut self, plan: ClassicAllocationPlan) -> (committed: bool)
        requires
            plan.alignment > 0,
        ensures
            committed == old(self)@.admits(plan),
            final(self)@ == (if committed {
                old(self)@.commit(plan)
            } else {
                old(self)@
            }),
    {
        if self.alloc_sizes.contains_key(&plan.address) || self.range_overlaps_reserved(
            plan.address,
            plan.capacity(),
        ) {
            return false;
        }
        let ghost before = self@;
        match plan.source {
            ClassicAllocationPlanSource::Free { bucket, retains_capacity } => {
                let mut blocks = match self.free_blocks.remove(&bucket) {
                    Some(blocks) => blocks,
                    None => {
                        assert(self@ =~= before) by {
                            assert(self@.free =~= before.free);
                        }
                        return false;
                    },
                };
                let ghost list = blocks@;
                assert(before.free[bucket] == list);
                let mut index: usize = 0;
                while index < blocks.len() && blocks[index] != plan.address
                    invariant
                        index <= list.len(),
                        list == blocks@,
                        forall|j: int| 0 <= j < index ==> list[j] != plan.address,
                    decreases list.len() - index,
                {
                    index += 1;
                }
                if index == blocks.len() {
                    self.free_blocks.insert(bucket, blocks);
                    proof {
                        lemma_first_index_absent(list, plan.address);
                        assert(self@.free =~= before.free);
                    }
                    return false;
                }
                proof {
                    lemma_first_index(list, plan.address, index as int);
                }
                blocks.swap_remove(index);
                assert(blocks@ =~= swap_removed(list, index as int));
                self.free_blocks.insert(bucket, blocks);
                assert(self@.free =~= before.free.insert(
                    bucket,
                    swap_removed(list, index as int),
                ));
                if retains_capacity {
                    self.alloc_bucket_sizes.insert(plan.address, bucket);
                }
            },
            ClassicAllocationPlanSource::Bump { previous_heap_ptr, next_heap_ptr } => {
                if self.heap_ptr != previous_heap_ptr || next_heap_ptr >= plan.heap_limit {
                    return false;
                }
                match self.bump_allocation_address(plan.aligned_size, plan.alignment) {
                    Some((address, next)) => {
                        if address != plan.address || next != next_heap_ptr {
                            return false;
                        }
                    },
                    None => {
                        return false;
                    },
                }
                self.heap_ptr = next_heap_ptr;
            },
        }
        self.alloc_sizes.insert(plan.address, plan.requested_size);
        true
    }

    /// Serve a request; zero where no block can be had.
    pub fn allocate(&mut self, size: u32, alignment: u32, heap_limit: u32) -> (address: u32)
        ensures
            (final(self)@, address) == old(self)@.allocate(size, alignment, heap_limit),
            old(self)@.sized() ==> final(self)@.sized(),
    {
        match self.allocation_plan(size, alignment, heap_limit) {
            Some(plan) => {
                if self.commit_allocation_plan(plan) {
                    plan.address
                } else {
                    0
                }
            },
            None => 0,
        }
    }

    /// The bump cursor.
    pub fn heap_bump_ptr(&self) -> (cursor: u32)
        ensures
            cursor == self@.heap_ptr,
    {
        self.heap_ptr
    }

    /// Move the cursor up to the first word at or after an address.
    pub fn reserve_until(&mut self, end_addr: u32)
        requires
            end_addr <= u32::MAX - 3,
        ensures
            final(self)@ == old(self)@.reserve_until(end_addr),
    {
        proof {
            lemma_round_up(end_addr as int, 4);
        }
        let aligned: u32 = (end_addr + 3) / 4 * 4;
        if self.heap_ptr < aligned {
            self.heap_ptr = aligned;
        }
    }

    /// Keep a span out of later allocations; the spans stay in order.
    pub fn reserve_range(&mut self, start_addr: u32, end_addr: u32)
        ensures
            final(self)@ == old(self)@.reserve_range(start_addr, end_addr),
    {
        let start: u32 = start_addr / 4 * 4;
        let end: u32 = end_addr.saturating_add(3) / 4 * 4;
        if start >= end {
            return;
        }
        let mut i: usize = 0;
        while i < self.reserved_heap_ranges.len() && span_not_after(
            self.reserved_heap_ranges[i],
            (start, end),
        )
            invariant
                i <= self.reserved_heap_ranges@.len(),
                forall|j: int|
                    0 <= j < i ==> span_le(#[trigger] self.reserved_heap_ranges@[j], (start, end)),
            decreases self.reserved_heap_ranges@.len() - i,
        {
            i += 1;
        }
        proof {
            lemma_leading(self.reserved_heap_ranges@, (start, end), i as int);
        }
        self.reserved_heap_ranges.insert(i, (start, end));
    }

    /// Give a live block another logical size; it keeps its capacity.
    pub fn set_allocation_size(&mut self, address: u32, size: u32)
        requires
            old(self)@.sized(),
            size <= u32::MAX - 3,
        ensures
            final(self)@ == old(self)@.resize(address, size),
            final(self)@.sized(),
    {
        match self.allocation_capacity(address) {
            Some(capacity) => {
                self.alloc_bucket_sizes.insert(address, capacity);
                self.alloc_sizes.insert(address, size);
            },
            None => {},
        }
    }

    /// Release a live block; anything else is left alone.
    pub fn free(&mut self, address: u32)
        requires
            old(self)@.sized(),
        ensures
            final(self)@ == old(self)@.release(address),
            final(self)@.sized(),
    {
        if address == 0 {
            return;
        }
        match self.allocation_capacity(address) {
            Some(bucket) => {
                let ghost before = self@;
                self.alloc_sizes.remove(&address);
                self.alloc_bucket_sizes.remove(&address);
                let mut blocks = match self.free_blocks.remove(&bucket) {
                    Some(blocks) => blocks,
                    None => Vec::new(),
                };
                blocks.push(address);
                self.free_blocks.insert(bucket, blocks);
                assert(self@.free =~= before.release(address).free);
            },
            None => {},
        }
    }
}

/// The order of spans: by start, then by end.
pub open spec fn span_le(a: (u32, u32), b: (u32, u32)) -> bool {
    a.0 < b.0 || (a.0 == b.0 && a.1 <= b.1)
}

fn span_not_after(a: (u32, u32), b: (u32, u32)) -> (result: bool)
    ensures
        result == span_le(a, b),
{
    a.0 < b.0 || (a.0 == b.0 && a.1 <= b.1)
}

/// How many leading spans do not come after `span`.
pub open spec fn leading(reserved: Seq<(u32, u32)>, span: (u32, u32)) -> int
    decreases reserved.len(),
{
    if reserved.len() == 0 || !span_le(reserved[0], span) {
        0
    } else {
        1 + leading(reserved.drop_first(), span)
    }
}

proof fn lemma_leading(reserved: Seq<(u32, u32)>, span: (u32, u32), index: int)
    requires
        0 <= index <= reserved.len(),
        forall|j: int| 0 <= j < index ==> span_le(#[trigger] reserved[j], span),
        index < reserved.len() ==> !span_le(reserved[index], span),
    ensures
        leading(reserved, span) == index,
    decreases reserved.len(),
{
    if index > 0 {
        let rest = reserved.drop_first();
        assert forall|j: int| 0 <= j < index - 1 implies span_le(#[trigger] rest[j], span) by {
            assert(rest[j] == reserved[j + 1]);
        }
        assert(span_le(reserved[0], span));
        lemma_leading(rest, span, index - 1);
    }
}

/// A span widened to whole words.
pub open spec fn reserved_span(start: u32, end: u32) -> (u32, u32) {
    (
        (start / 4 * 4) as u32,
        ((if end + 3 > u32::MAX {
            u32::MAX as int
        } else {
            end + 3
        }) / 4 * 4) as u32,
    )
}

/// The reserved spans with one more, in order; an empty span adds nothing.
pub open spec fn with_reserved(reserved: Seq<(u32, u32)>, span: (u32, u32)) -> Seq<(u32, u32)> {
    if span.0 >= span.1 {
        reserved
    } else {
        reserved.insert(leading(reserved, span), span)
    }
}

impl CellDefault for ClassicHeapAllocatorState {
    open spec fn is_default(&self) -> bool {
        self@ == HeapModel::fresh()
    }

    fn default_value() -> (value: Self) {
        ClassicHeapAllocatorState::new()
    }
}

impl CellValue for ClassicHeapAllocatorState {
    open spec fn same(&self, other: &Self) -> bool {
        self@ == other@
    }

    fn copy_value(&self) -> (copy: Self) {
        let n: usize = self.free_blocks.count();
        let ghost keys = self.free_blocks.key_list();
        let mut free_blocks: AssocMap<u32, Vec<u32>> = AssocMap::new();
        let mut i: usize = 0;
        while i < n
            invariant
                i <= n,
                n == keys.len(),
                keys == self.free_blocks.key_list(),
                keys.no_duplicates(),
                forall|bucket: u32| #[trigger]
                    free_blocks@.dom().contains(bucket) ==> self.free_blocks@.dom().contains(bucket)
                        && free_blocks@[bucket]@ == self.free_blocks@[bucket]@,
                forall|j: int| 0 <= j < i ==> free_blocks@.dom().contains(#[trigger] keys[j]),
            decreases n - i,
        {
            let (bucket, blocks) = self.free_blocks.entry_at(i);
            let copied = blocks.clone();
            assert(copied@ =~= blocks@);
            free_blocks.insert(*bucket, copied);
            i += 1;
        }
        let mut reserved_heap_ranges: Vec<(u32, u32)> = Vec::new();
        let mut k: usize = 0;
        while k < self.reserved_heap_ranges.len()
            invariant
                k <= self.reserved_heap_ranges@.len(),
                reserved_heap_ranges@ == self.reserved_heap_ranges@.take(k as int),
            decreases self.reserved_heap_ranges@.len() - k,
        {
            reserved_heap_ranges.push(self.reserved_heap_ranges[k]);
            assert(reserved_heap_ranges@ =~= self.reserved_heap_ranges@.take(k + 1));
            k += 1;
        }
        assert(self.reserved_heap_ranges@.take(k as int) =~= self.reserved_heap_ranges@);
        let copy = ClassicHeapAllocatorState {
            owner_id: self.owner_id,
            heap_ptr: self.heap_ptr,
            free_blocks,
            alloc_sizes: self.alloc_sizes.copy_map(),
            reserved_heap_ranges,
            alloc_bucket_sizes: self.alloc_bucket_sizes.copy_map(),
        };
        proof {
            assert forall|bucket: u32| #[trigger]
                self.free_blocks@.dom().contains(bucket) implies free_blocks@.dom().contains(
                bucket,
            ) by {
                assert(keys.contains(bucket));
                let j = choose|j: int| 0 <= j < keys.len() && keys[j] == bucket;
                assert(free_blocks@.dom().contains(keys[j]));
            }
            assert(copy@.free =~= self@.free);
        }
        copy
    }
}

} // verus!
