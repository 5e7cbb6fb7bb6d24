//! What a manager that takes another's heaps and handles over has afterwards.

use crate::classic_heap::HeapModel;
use crate::memory_model::ManagerModel;
use vstd::prelude::*;

verus! {

/// Nothing native was ever allocated: there is no handle, no block and no free
/// block, and the heap is as it was given.
pub open spec fn natively_untouched(manager: ManagerModel) -> bool {
    &&& manager.records.len() == 0
    &&& forall|ptr: u32| !#[trigger] manager.native_ptrs.contains(ptr)
    &&& forall|handle: u32| !#[trigger] manager.native_handles.contains(handle)
    &&& manager.native matches Some(native) ==> native.heap == native.initial_heap
        && native.ptrs.len() == 0 && native.free_ptrs.len() == 0 && native.free_handles.len() == 0
}

/// A manager counts as pristine exactly where nothing native was allocated.
pub proof fn pristine_manager_is_untouched(manager: ManagerModel)
    ensures
        manager.native_pristine() <==> natively_untouched(manager),
{
    if natively_untouched(manager) {
        assert(manager.native_ptrs =~= Set::<u32>::empty());
        assert(manager.native_handles =~= Set::<u32>::empty());
    }
}

/// A manager that adopts another has all handles, blocks and states of both:
/// the native heap of the one that used one, the classic heap of the source
/// where it has one, claimed by the adopting manager, and otherwise its own.
/// Where both know a handle or a block, the source's word counts.
pub proof fn adopting_manager_has_what_both_had(
    target: ManagerModel,
    source: ManagerModel,
    key: u32,
)
    requires
        target.can_adopt(source),
    ensures
        ({
            let after = target.adopted(source);
            &&& after.owner == target.owner
            &&& source.classic is Some ==> {
                &&& after.classic is Some
                &&& after.classic->0.owner == Some(target.owner as usize)
                &&& after.classic->0.sizes == source.classic->0.sizes
                &&& after.classic->0.free == source.classic->0.free
                &&& after.classic->0.reserved == source.classic->0.reserved
                &&& after.classic->0.buckets == source.classic->0.buckets
                &&& after.classic->0.heap_ptr == source.classic->0.heap_ptr
                &&& after.classic_limit == source.classic_limit
            }
            &&& source.classic is None ==> after.classic == target.classic && after.classic_limit
                == target.classic_limit
            &&& !natively_untouched(source) ==> after.records == source.records && after.native
                == source.native && after.native_ptrs == source.native_ptrs && after.native_handles
                == source.native_handles && after.dirty == source.dirty
            &&& !natively_untouched(target) ==> after.records == target.records && after.native
                == target.native && after.native_ptrs == target.native_ptrs && after.native_handles
                == target.native_handles && after.dirty == target.dirty
            &&& natively_untouched(source) && natively_untouched(target) ==> after.native == (
            if target.native is Some {
                target.native
            } else {
                source.native
            })
            &&& source.states.dom().contains(key) ==> after.state(key) == Some(source.states[key])
            &&& !source.states.dom().contains(key) && target.states.dom().contains(key)
                ==> after.state(key) == Some(target.states[key])
            &&& source.ptr_to_handle.dom().contains(key) ==> after.ptr_to_handle.dom().contains(key)
                && after.ptr_to_handle[key] == source.ptr_to_handle[key]
            &&& !source.ptr_to_handle.dom().contains(key) ==> after.ptr_to_handle.dom().contains(
                key,
            ) == target.ptr_to_handle.dom().contains(key) && (target.ptr_to_handle.dom().contains(
                key,
            ) ==> after.ptr_to_handle[key] == target.ptr_to_handle[key])
            &&& source.high.dom().contains(key) ==> after.high.dom().contains(key)
                && after.high[key] == source.high[key]
            &&& !source.high.dom().contains(key) ==> after.high.dom().contains(key)
                == target.high.dom().contains(key)
        }),
{
    pristine_manager_is_untouched(target);
    pristine_manager_is_untouched(source);
}

/// Adoption is possible exactly where it loses nothing: not both managers used
/// a native heap, not both have a classic heap, the source owns the one that it
/// gives, and limits that both set agree.
pub proof fn adoption_is_refused_where_something_would_be_lost(
    target: ManagerModel,
    source: ManagerModel,
)
    ensures
        !natively_untouched(target) && !natively_untouched(source) ==> !target.can_adopt(source),
        target.classic is Some && source.classic is Some ==> !target.can_adopt(source),
        source.classic is Some && source.classic->0.owner != Some(source.owner as usize)
            ==> !target.can_adopt(source),
        target.classic_limit is Some && source.classic_limit is Some && target.classic_limit->0
            != source.classic_limit->0 ==> !target.can_adopt(source),
        (natively_untouched(target) || natively_untouched(source)) && (source.classic is None || (
        target.classic is None && source.classic->0.owner == Some(source.owner as usize))) && (
        target.classic_limit is None || source.classic_limit is None || target.classic_limit
            == source.classic_limit) ==> target.can_adopt(source),
{
    pristine_manager_is_untouched(target);
    pristine_manager_is_untouched(source);
}

/// The application limit of the adopting manager stays unless it set none or
/// set one that the adopted native heap has passed or does not reach; then the
/// source's counts.
pub proof fn adopted_limit_suits_the_heap(target: ManagerModel, source: ManagerModel)
    ensures
        ({
            let limit = target.adopted(source).application_limit;
            let usable = target.application_limit is Some && (source.native is None || (
            source.native->0.heap.heap_cursor <= target.application_limit->0
                && target.application_limit->0 <= source.native->0.heap.heap_limit));
            &&& usable ==> limit == target.application_limit
            &&& !usable ==> limit == source.application_limit
        }),
{
}

/// Restoring a snapshot brings every handle, block and state back; the manager
/// keeps its identity, and a classic heap keeps the owner that it has.
pub proof fn restored_snapshot_brings_everything_back(
    manager: ManagerModel,
    snapshot: ManagerModel,
)
    ensures
        ({
            let after = manager.restored(snapshot);
            &&& after.owner == manager.owner
            &&& after.records == snapshot.records
            &&& after.native == snapshot.native
            &&& after.native_ptrs == snapshot.native_ptrs
            &&& after.native_handles == snapshot.native_handles
            &&& after.ptr_to_handle == snapshot.ptr_to_handle
            &&& after.states == snapshot.states
            &&& after.high == snapshot.high
            &&& after.classic_limit == snapshot.classic_limit
            &&& after.application_limit == snapshot.application_limit
            &&& after.dirty == snapshot.dirty
            &&& after.classic is Some <==> snapshot.classic is Some
            &&& snapshot.classic is Some ==> {
                &&& after.classic->0.sizes == snapshot.classic->0.sizes
                &&& after.classic->0.free == snapshot.classic->0.free
                &&& after.classic->0.buckets == snapshot.classic->0.buckets
                &&& after.classic->0.reserved == snapshot.classic->0.reserved
                &&& after.classic->0.heap_ptr == snapshot.classic->0.heap_ptr
                &&& after.classic->0.owner == if manager.classic is Some {
                    manager.classic->0.owner
                } else {
                    Some(manager.owner as usize)
                }
            }
        }),
{
}

/// A heap is used: a block was given out, recycled or kept clear.
pub open spec fn heap_used(heap: HeapModel) -> bool {
    ||| heap.heap_ptr != crate::classic_heap::CLASSIC_HEAP_BASE
    ||| heap.reserved.len() > 0
    ||| exists|a: u32| #[trigger] heap.sizes.dom().contains(a)
    ||| exists|b: u32| #[trigger] heap.free.dom().contains(b)
    ||| exists|a: u32| #[trigger] heap.buckets.dom().contains(a)
}

/// The classic heap of a bus that joins is used by the process where the
/// process has used none; otherwise the process keeps its own. Two used heaps,
/// a heap that another process claimed and a limit that differs are refused,
/// and nothing else is.
pub proof fn joined_heap_is_the_used_one(
    manager: ManagerModel,
    bus_heap: HeapModel,
    same: bool,
    bus_limit: u32,
)
    ensures
        manager.can_attach(bus_heap, same, bus_limit) <==> (manager.classic_limit is None
            || manager.classic_limit->0 == bus_limit) && (bus_heap.owner is None || bus_heap.owner
            == Some(manager.owner as usize)) && (manager.classic is None || same || !heap_used(
            manager.classic->0,
        ) || !heap_used(bus_heap)),
        ({
            let joined = manager.attached_heap(bus_heap, same);
            &&& manager.classic is None || same ==> joined.owner == Some(manager.owner as usize)
                && joined.sizes == bus_heap.sizes && joined.free == bus_heap.free
                && joined.heap_ptr == bus_heap.heap_ptr && joined.reserved == bus_heap.reserved
                && joined.buckets == bus_heap.buckets
            &&& manager.classic is Some && !same && (heap_used(manager.classic->0) || !heap_used(
                bus_heap,
            )) ==> joined == manager.classic->0
            &&& manager.classic is Some && !same && !heap_used(manager.classic->0) && heap_used(
                bus_heap,
            ) ==> joined.owner == manager.classic->0.owner && joined.sizes == bus_heap.sizes
                && joined.free == bus_heap.free && joined.heap_ptr == bus_heap.heap_ptr
                && joined.reserved == bus_heap.reserved && joined.buckets == bus_heap.buckets
        }),
{
    lemma_pristine_is_unused(bus_heap);
    if let Some(heap) = manager.classic {
        lemma_pristine_is_unused(heap);
    }
}

proof fn lemma_pristine_is_unused(heap: HeapModel)
    ensures
        heap.pristine() <==> !heap_used(heap),
{
    if !heap_used(heap) {
        assert(heap.free =~= Map::<u32, Seq<u32>>::empty());
        assert(heap.sizes =~= Map::<u32, u32>::empty());
        assert(heap.reserved =~= Seq::<(u32, u32)>::empty());
        assert(heap.buckets =~= Map::<u32, u32>::empty());
    }
}

/// A manager that got another identity has the same heaps, handles and blocks,
/// and its classic heap is claimed under the new identity.
pub proof fn renamed_owner_changes_only_the_claim(manager: ManagerModel, owner: int)
    ensures
        ({
            let after = manager.owned_by(owner);
            &&& after.owner == owner
            &&& after.records == manager.records && after.native == manager.native && after.states
                == manager.states && after.high == manager.high && after.ptr_to_handle
                == manager.ptr_to_handle && after.native_ptrs == manager.native_ptrs
                && after.native_handles == manager.native_handles && after.classic_limit
                == manager.classic_limit && after.application_limit == manager.application_limit
                && after.dirty == manager.dirty
            &&& manager.classic is Some <==> after.classic is Some
            &&& manager.classic is Some ==> after.classic->0.owner == Some(owner as usize)
                && after.classic->0.sizes == manager.classic->0.sizes && after.classic->0.free
                == manager.classic->0.free && after.classic->0.heap_ptr
                == manager.classic->0.heap_ptr && after.classic->0.reserved
                == manager.classic->0.reserved && after.classic->0.buckets
                == manager.classic->0.buckets
        }),
{
}

} // verus!
