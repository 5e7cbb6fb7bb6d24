//! What classic blocks hold when native imports move them.

use crate::guest_memory::SpaceModel;
use crate::memory_model::{
    ManagerModel, LOCKED_BIT, MEM_FULL_ERR, NIL_HANDLE_ERR, PARAM_ERR, RESOURCE_BIT,
};
use vstd::prelude::*;

verus! {

/// The classic heap of a manager is intact.
pub open spec fn classic_heap_intact(manager: ManagerModel) -> bool {
    &&& manager.classic is Some
    &&& manager.classic_limit is Some
    &&& crate::heap_blocks::heap_blocks_apart(manager.classic->0)
}

/// A classic handle with a block: its master pointer and its block are live.
pub open spec fn import_handle(manager: ManagerModel, space: SpaceModel, handle: u32) -> bool {
    &&& handle != 0
    &&& manager.record(handle) is None
    &&& manager.classic->0.size_of(handle) == Some(4u32)
    &&& space.word(handle as int) is Some
    &&& space.word(handle as int) != Some(0u32)
    &&& space.word(handle as int) != Some(handle)
    &&& manager.classic->0.size_of(space.word(handle as int)->0) is Some
}

/// A write leaves a run alone that it does not meet.
proof fn lemma_space_run_kept(
    space: SpaceModel,
    address: int,
    data: Seq<u8>,
    other: int,
    len: nat,
)
    requires
        space.mapped(other, len as int),
        other + len <= address || address + data.len() <= other,
    ensures
        space.store(address, data).load(other, len) == space.load(other, len),
        space.store(address, data).mapped(other, len as int),
{
    let after = space.store(address, data);
    assert forall|i: int| 0 <= i < len implies #[trigger] after.load(other, len)[i] == space.load(
        other,
        len,
    )[i] by {
        assert(space.bytes.dom().contains(other + i));
    }
    assert(after.load(other, len) =~= space.load(other, len));
}

/// Moving a classic block keeps its leading bytes.
proof fn lemma_imported_move(
    manager: ManagerModel,
    space: SpaceModel,
    handle: u32,
    new_size: u32,
)
    requires
        classic_heap_intact(manager),
        import_handle(manager, space, handle),
    ensures
        ({
            let ptr = space.word(handle as int)->0;
            let old_size = manager.classic->0.size_of(ptr)->0;
            let kept = if old_size < new_size {
                old_size as nat
            } else {
                new_size as nat
            };
            let (after, left, error) = manager.import_move(space, handle, ptr, new_size);
            let new_ptr = left.word(handle as int)->0;
            error == 0 ==> {
                &&& classic_heap_intact(after)
                &&& left.word(handle as int) is Some
                &&& after.classic->0.size_of(new_ptr) == Some(new_size)
                &&& after.classic->0.size_of(handle) == Some(4u32)
                &&& left.load(new_ptr as int, kept) == space.load(ptr as int, kept)
                &&& left.mapped(new_ptr as int, kept as int)
            }
        }),
{
    let heap = manager.classic->0;
    let ptr = space.word(handle as int)->0;
    let old_size = heap.size_of(ptr)->0;
    let kept = if old_size < new_size {
        old_size as nat
    } else {
        new_size as nat
    };
    let limit = manager.classic_limit->0;
    let (after, left, error) = manager.import_move(space, handle, ptr, new_size);
    if error == 0 {
        let (placed, new_ptr) = heap.allocate(new_size, 4, limit);
        crate::heap_blocks::allocating_keeps_blocks_apart(heap, new_size, 4, limit);
        crate::heap_laws::allocated_block_is_new(heap, new_size, 4, limit);
        crate::heap_laws::planned_block_is_placed(heap, new_size, 4, limit);
        crate::heap_blocks::releasing_keeps_blocks_apart(placed, ptr);
        let plan = heap.plan(new_size, 4, limit)->0;
        assert(placed == heap.commit(plan));
        assert(heap.sizes.dom().contains(ptr));
        assert(heap.sizes.dom().contains(handle));
        assert(placed.sizes.dom().contains(new_ptr));
        assert(crate::heap_blocks::block_in_heap(heap, handle, heap.capacity_of(handle)->0));
        crate::classic_heap::lemma_round_up(4, 4);
        crate::classic_heap::lemma_round_up(new_size as int, 4);
        let bytes = space.load(ptr as int, kept);
        let copied = space.store(new_ptr as int, bytes);
        crate::guest_memory::written_bytes_are_read_back(space, new_ptr as int, bytes, 0);
        crate::guest_memory::written_word_is_read_back(copied, handle as int, new_ptr);
        crate::guest_memory::lemma_word_round_trip(new_ptr);
        lemma_space_run_kept(
            copied,
            handle as int,
            crate::guest_memory::word_bytes(new_ptr),
            new_ptr as int,
            kept,
        );
    }
}

/// A classic handle keeps its bytes, up to the lesser of both sizes, however a
/// native import resizes it, and its master pointer leads to them. A refused
/// request changes nothing but the error code.
pub proof fn imported_resize_keeps_the_bytes(
    manager: ManagerModel,
    space: SpaceModel,
    handle: u32,
    new_size: u32,
)
    requires
        classic_heap_intact(manager),
        import_handle(manager, space, handle),
    ensures
        ({
            let ptr = space.word(handle as int)->0;
            let old_size = manager.classic->0.size_of(ptr)->0;
            let kept = if old_size < new_size {
                old_size as nat
            } else {
                new_size as nat
            };
            let (after, left, error) = manager.import_set_handle_size(space, handle, new_size);
            let new_ptr = left.word(handle as int)->0;
            &&& classic_heap_intact(after)
            &&& error != 0 ==> after == manager.mem_error(error) && left == space
            &&& error == 0 ==> {
                &&& left.word(handle as int) is Some
                &&& after.classic->0.size_of(new_ptr) == Some(new_size)
                &&& after.classic->0.size_of(handle) == Some(4u32)
                &&& space.mapped(ptr as int, kept as int) ==> {
                    &&& left.mapped(new_ptr as int, kept as int)
                    &&& left.load(new_ptr as int, kept) == space.load(ptr as int, kept)
                }
            }
        }),
{
    let heap = manager.classic->0;
    let ptr = space.word(handle as int)->0;
    let old_size = heap.size_of(ptr)->0;
    let kept = if old_size < new_size {
        old_size as nat
    } else {
        new_size as nat
    };
    let (after, left, error) = manager.import_set_handle_size(space, handle, new_size);
    assert(heap.sizes.dom().contains(ptr));
    assert(heap.sizes.dom().contains(handle));
    assert(crate::heap_blocks::block_in_heap(heap, ptr, heap.capacity_of(ptr)->0));
    assert(crate::heap_blocks::block_in_heap(heap, handle, heap.capacity_of(handle)->0));
    assert(crate::heap_blocks::blocks_disjoint(
        ptr as int,
        heap.capacity_of(ptr)->0 as int,
        handle as int,
        heap.capacity_of(handle)->0 as int,
    ));
    crate::classic_heap::lemma_round_up(old_size as int, 4);
    if error == 0 {
        crate::classic_heap::lemma_round_up(new_size as int, 4);
        if crate::classic_heap::bucket_size(new_size as int) <= heap.capacity_of(ptr)->0 {
            crate::heap_blocks::resizing_keeps_blocks_apart(heap, ptr, new_size);
            if new_size < old_size {
                let tail = crate::guest_memory::zeros((old_size - new_size) as nat);
                if space.mapped(ptr as int, kept as int) {
                    lemma_space_run_kept(space, ptr + new_size, tail, ptr as int, kept);
                }
                lemma_space_run_kept(space, ptr + new_size, tail, handle as int, 4);
            }
        } else {
            lemma_imported_move(manager, space, handle, new_size);
        }
    }
}

/// The copy that a native import makes of a classic handle is a handle of its
/// own, and its master pointer leads to the same bytes.
pub proof fn imported_copy_holds_the_bytes(manager: ManagerModel, space: SpaceModel, handle: u32)
    requires
        classic_heap_intact(manager),
        import_handle(manager, space, handle),
    ensures
        ({
            let ptr = space.word(handle as int)->0;
            let size = manager.classic->0.size_of(ptr)->0;
            let (after, left, result) = manager.import_copy(space, handle);
            result matches Ok(copy) ==> {
                let new_ptr = left.word(copy as int)->0;
                &&& classic_heap_intact(after)
                &&& copy != handle
                &&& after.classic->0.size_of(copy) == Some(4u32)
                &&& left.word(copy as int) is Some
                &&& new_ptr != 0 ==> {
                    &&& after.classic->0.size_of(new_ptr) == Some(size)
                    &&& left.mapped(new_ptr as int, size as int)
                    &&& left.load(new_ptr as int, size as nat) == space.load(
                        ptr as int,
                        size as nat,
                    )
                }
            }
        }),
{
    let heap = manager.classic->0;
    let ptr = space.word(handle as int)->0;
    let size = heap.size_of(ptr)->0;
    let limit = manager.classic_limit->0;
    let (after, left, result) = manager.import_copy(space, handle);
    if let Ok(copy) = result {
        let bytes = space.load(ptr as int, size as nat);
        let (with_block, new_ptr) = heap.allocate(size, 4, limit);
        let (with_master, master) = with_block.allocate(4, 4, limit);
        crate::heap_blocks::allocating_keeps_blocks_apart(heap, size, 4, limit);
        crate::heap_laws::allocated_block_is_new(heap, size, 4, limit);
        crate::heap_blocks::allocating_keeps_blocks_apart(with_block, 4, 4, limit);
        crate::heap_laws::allocated_block_is_new(with_block, 4, 4, limit);
        assert(heap.sizes.dom().contains(handle));
        assert(with_master.sizes.dom().contains(copy));
        let copied = space.store(new_ptr as int, bytes);
        crate::guest_memory::written_bytes_are_read_back(space, new_ptr as int, bytes, 0);
        crate::guest_memory::written_word_is_read_back(copied, copy as int, new_ptr);
        crate::guest_memory::lemma_word_round_trip(new_ptr);
        if new_ptr != 0 {
            assert(with_master.sizes.dom().contains(new_ptr));
            assert(with_block.sizes.dom().contains(new_ptr));
            crate::classic_heap::lemma_round_up(size as int, 4);
            crate::classic_heap::lemma_round_up(4, 4);
            lemma_space_run_kept(
                copied,
                copy as int,
                crate::guest_memory::word_bytes(new_ptr),
                new_ptr as int,
                size as nat,
            );
        }
    }
}

/// The size that a master pointer leads to is that of the block that it is
/// recorded with, native or classic; the heap reports an error exactly where
/// there is none.
pub proof fn size_by_master_is_that_of_its_block(manager: ManagerModel, handle: u32, ptr: u32)
    requires
        manager.native is Some,
    ensures
        ({
            let (after, size) = manager.size_by_master(handle, ptr);
            &&& handle == 0 || ptr == 0 ==> size is None
            &&& handle != 0 && ptr != 0 && manager.record(handle) is Some && manager.record(
                handle,
            )->0.ptr == ptr ==> size == Some(manager.record(handle)->0.size)
            &&& handle != 0 && ptr != 0 && manager.record(handle) is None && manager.classic is Some
                && manager.classic->0.size_of(handle) == Some(4u32) ==> size
                == manager.classic->0.size_of(ptr)
            &&& manager.record(handle) is None && (manager.classic is None
                || manager.classic->0.size_of(handle) != Some(4u32)) ==> size is None
            &&& after.last_error() == if size is Some {
                0
            } else {
                NIL_HANDLE_ERR
            }
            &&& after.records == manager.records && after.classic == manager.classic
        }),
{
}

/// The size of a fixed block is the one that it was given, whichever heap it
/// lies in; for what is no block an error is reported.
pub proof fn size_of_a_fixed_block_is_its_own(manager: ManagerModel, ptr: u32)
    requires
        manager.native is Some,
    ensures
        ({
            let (after, size) = manager.import_ptr_size(ptr);
            &&& manager.native_ptr(ptr) matches Some(record) ==> size == record.size && (
            after.last_error() == 0 <==> record.size != 0)
            &&& manager.native_ptr(ptr) is None && manager.classic is Some
                && manager.classic->0.size_of(ptr) is Some ==> size == manager.classic->0.size_of(
                ptr,
            )->0 && after.last_error() == 0
            &&& manager.native_ptr(ptr) is None && (manager.classic is None
                || manager.classic->0.size_of(ptr) is None) ==> size == 0 && after.last_error()
                == PARAM_ERR
        }),
{
}

/// A classic handle that native code made for bytes holds them, and its block
/// leads back to it.
pub proof fn imported_bytes_are_held(manager: ManagerModel, space: SpaceModel, bytes: Seq<u8>)
    requires
        classic_heap_intact(manager),
        bytes.len() <= u32::MAX,
    ensures
        ({
            let (after, left, result) = manager.import_copy_to_classic(space, bytes);
            let (with_block, ptr) = manager.classic->0.allocate(
                bytes.len() as u32,
                4,
                manager.classic_limit->0,
            );
            let handle = with_block.allocate(4, 4, manager.classic_limit->0).1;
            &&& result is Ok <==> (ptr != 0 || bytes.len() == 0) && handle != 0 && (bytes.len() == 0
                || space.accepts(ptr as int, bytes.len() as int)) && space.accepts(handle as int, 4)
            &&& result matches Ok(made) ==> {
                &&& made == handle
                &&& left.word(made as int) == Some(ptr)
                &&& after.state(made) == Some(0u8)
                &&& after.ptr_to_handle[ptr] == made
                &&& ptr != 0 ==> left.load(ptr as int, bytes.len()) == bytes
                    && after.classic->0.size_of(ptr) == Some(bytes.len() as u32)
                &&& after.classic->0.size_of(made) == Some(4u32)
            }
            &&& result is Err ==> left == space && after.ptr_to_handle == manager.ptr_to_handle
        }),
{
    let heap = manager.classic->0;
    let limit = manager.classic_limit->0;
    let size = bytes.len() as u32;
    let (with_block, ptr) = heap.allocate(size, 4, limit);
    let (with_master, handle) = with_block.allocate(4, 4, limit);
    crate::heap_blocks::allocating_keeps_blocks_apart(heap, size, 4, limit);
    crate::heap_blocks::allocating_keeps_blocks_apart(with_block, 4, 4, limit);
    crate::heap_laws::allocated_block_is_new(heap, size, 4, limit);
    crate::heap_laws::allocated_block_is_new(with_block, 4, 4, limit);
    let (after, left, result) = manager.import_copy_to_classic(space, bytes);
    if result is Ok {
        let stored = space.store(ptr as int, bytes);
        crate::guest_memory::written_word_is_read_back(stored, handle as int, ptr);
        crate::guest_memory::lemma_word_round_trip(ptr);
        if ptr != 0 {
            assert(with_master.sizes.dom().contains(ptr));
            assert(with_master.sizes.dom().contains(handle));
            crate::classic_heap::lemma_round_up(size as int, 4);
            assert(crate::heap_blocks::block_in_heap(
                with_master,
                ptr,
                with_master.capacity_of(ptr)->0,
            ));
            assert(crate::heap_blocks::blocks_disjoint(
                ptr as int,
                with_master.capacity_of(ptr)->0 as int,
                handle as int,
                with_master.capacity_of(handle)->0 as int,
            ));
            crate::guest_memory::written_bytes_are_read_back(space, ptr as int, bytes, 0);
            lemma_space_run_kept(
                stored,
                handle as int,
                crate::guest_memory::word_bytes(ptr),
                ptr as int,
                bytes.len(),
            );
        } else {
            assert(bytes =~= Seq::empty());
        }
    }
}

/// A handle can be copied exactly where its master pointer leads to a block
/// that is recorded as its own and holds its size; the block and the size are
/// then the recorded ones.
pub proof fn copied_handle_is_its_own(manager: ManagerModel, space: SpaceModel, handle: u32)
    ensures
        ({
            let source = manager.import_source(space, handle);
            let word = space.word(handle as int);
            &&& handle == 0 ==> source is Err
            &&& source matches Ok((ptr, size, native)) ==> {
                &&& word == Some(ptr)
                &&& ptr != 0
                &&& manager.ptr_to_handle.dom().contains(ptr) && manager.ptr_to_handle[ptr]
                    == handle
                &&& native <==> manager.record(handle) is Some
                &&& native ==> manager.record(handle)->0.ptr == ptr && manager.record(
                    handle,
                )->0.size == size && size <= manager.record(handle)->0.capacity
                &&& !native ==> manager.classic is Some && manager.classic->0.size_of(ptr) == Some(
                    size,
                ) && manager.classic->0.size_of(handle) == Some(4u32) && ptr != handle
            }
            &&& handle != 0 && manager.record(handle) is Some && word == Some(
                manager.record(handle)->0.ptr,
            ) && word != Some(0u32) && manager.ptr_to_handle.dom().contains(word->0)
                && manager.ptr_to_handle[word->0] == handle && manager.record(handle)->0.size
                <= manager.record(handle)->0.capacity ==> source is Ok
            &&& import_handle(manager, space, handle) && manager.classic is Some
                && manager.ptr_to_handle.dom().contains(word->0) && manager.ptr_to_handle[word->0]
                == handle && crate::heap_blocks::heap_blocks_apart(manager.classic->0) ==> source
                is Ok
        }),
{
    let word = space.word(handle as int);
    if import_handle(manager, space, handle) && manager.classic is Some
        && crate::heap_blocks::heap_blocks_apart(manager.classic->0) {
        let heap = manager.classic->0;
        let ptr = word->0;
        assert(heap.sizes.dom().contains(ptr));
        assert(heap.sizes.dom().contains(handle));
        assert(crate::heap_blocks::block_in_heap(heap, handle, heap.capacity_of(handle)->0));
        assert(crate::heap_blocks::block_in_heap(heap, ptr, heap.capacity_of(ptr)->0));
        crate::classic_heap::lemma_round_up(heap.sizes[ptr] as int, 4);
        crate::classic_heap::lemma_round_up(heap.sizes[handle] as int, 4);
        assert(crate::heap_blocks::blocks_disjoint(
            ptr as int,
            heap.capacity_of(ptr)->0 as int,
            handle as int,
            heap.capacity_of(handle)->0 as int,
        ));
    }
}

/// Emptying a classic handle from native code gives its block up and leaves a
/// null master pointer. Resources and locked handles are refused, and then
/// nothing changes but the error.
pub proof fn imported_emptying_gives_the_block_up(
    manager: ManagerModel,
    space: SpaceModel,
    handle: u32,
)
    requires
        import_handle(manager, space, handle),
        manager.classic is Some,
        space.accepts(handle as int, 4),
    ensures
        ({
            let ptr = space.word(handle as int)->0;
            let state = manager.state_or_clear(handle);
            let (after, left, error) = manager.import_empty(space, handle);
            &&& error == 0 <==> state & RESOURCE_BIT == 0 && state & LOCKED_BIT == 0
            &&& error == 0 ==> {
                &&& left.word(handle as int) == Some(0u32)
                &&& after.classic->0.size_of(ptr) is None
                &&& after.classic->0.size_of(handle) == Some(4u32)
                &&& !after.ptr_to_handle.dom().contains(ptr)
            }
            &&& error != 0 ==> left == space && after.classic == manager.classic
                && after.ptr_to_handle == manager.ptr_to_handle
        }),
{
    crate::guest_memory::written_word_is_read_back(space, handle as int, 0);
}

/// Disposing of a classic handle from native code releases its master pointer
/// and its block and forgets its properties; a resource is left alone.
pub proof fn imported_disposal_releases_both(manager: ManagerModel, space: SpaceModel, handle: u32)
    requires
        import_handle(manager, space, handle),
        manager.classic is Some,
        !manager.native_handles.contains(handle),
    ensures
        ({
            let ptr = space.word(handle as int)->0;
            let (after, left, disposed) = manager.import_dispose(space, handle);
            &&& disposed <==> manager.state_or_clear(handle) & RESOURCE_BIT == 0
            &&& left == space
            &&& disposed ==> {
                &&& after.classic->0.size_of(handle) is None
                &&& after.classic->0.size_of(ptr) is None
                &&& after.state(handle) is None
                &&& !after.high.dom().contains(handle)
                &&& forall|other: u32|
                    other != handle && other != ptr ==> #[trigger] after.classic->0.size_of(other)
                        == manager.classic->0.size_of(other)
            }
            &&& !disposed ==> after.classic == manager.classic && after.states == manager.states
        }),
{
}

/// A classic fixed block is released from native code exactly where it is one.
pub proof fn imported_block_is_released(manager: ManagerModel, ptr: u32)
    requires
        manager.classic is Some,
        ptr != 0,
    ensures
        ({
            let (after, released) = manager.import_dispose_ptr(ptr);
            &&& released <==> manager.classic->0.size_of(ptr) is Some
            &&& after.classic->0.size_of(ptr) is None
            &&& !released ==> after == manager
            &&& forall|other: u32|
                other != ptr ==> #[trigger] after.classic->0.size_of(other)
                    == manager.classic->0.size_of(other)
        }),
{
}

/// A classic fixed block takes exactly the sizes that its capacity holds, from
/// native code too, and what it gives up reads as zero.
pub proof fn imported_block_takes_what_its_capacity_holds(
    manager: ManagerModel,
    space: SpaceModel,
    ptr: u32,
    new_size: u32,
)
    requires
        manager.native_ptr(ptr) is None,
        manager.classic is Some,
        manager.classic->0.size_of(ptr) is Some,
        ptr + manager.classic->0.size_of(ptr)->0 <= u32::MAX,
        space.accepts(ptr as int, manager.classic->0.size_of(ptr)->0 as int),
    ensures
        ({
            let old_size = manager.classic->0.size_of(ptr)->0;
            let (after, left, error) = manager.import_set_ptr_size(space, ptr, new_size);
            &&& error == 0 <==> new_size <= u32::MAX - 3 && crate::classic_heap::bucket_size(
                new_size as int,
            ) <= manager.classic->0.capacity_of(ptr)->0
            &&& error == 0 ==> after.classic->0.size_of(ptr) == Some(new_size)
            &&& error != 0 ==> left == space && after.classic == manager.classic
            &&& error == 0 ==> forall|a: int|
                new_size <= a < old_size ==> #[trigger] left.bytes[ptr + a] == 0
            &&& forall|a: int|
                !(ptr + new_size <= a < ptr + old_size) && #[trigger] space.bytes.dom().contains(a)
                    ==> left.bytes.dom().contains(a) && left.bytes[a] == space.bytes[a]
        }),
{
}

/// A classic handle takes every size from native code that the heap has a place
/// for, unless it is locked and must move, is a resource, or memory refuses the
/// write.
pub proof fn imported_handle_takes_what_its_block_holds(
    manager: ManagerModel,
    space: SpaceModel,
    handle: u32,
    new_size: u32,
)
    requires
        classic_heap_intact(manager),
        import_handle(manager, space, handle),
        manager.state_or_clear(handle) & RESOURCE_BIT == 0,
        manager.ptr_to_handle.dom().contains(space.word(handle as int)->0),
        manager.ptr_to_handle[space.word(handle as int)->0] == handle,
        space.accepts(handle as int, 4),
        new_size <= u32::MAX - 3,
    ensures
        ({
            let heap = manager.classic->0;
            let ptr = space.word(handle as int)->0;
            let capacity = heap.capacity_of(ptr)->0;
            let (after, left, error) = manager.import_set_handle_size(space, handle, new_size);
            &&& crate::classic_heap::bucket_size(new_size as int) <= capacity && space.accepts(
                ptr as int,
                capacity as int,
            ) ==> error == 0 && left.word(handle as int) == Some(ptr)
            &&& crate::classic_heap::bucket_size(new_size as int) > capacity
                && manager.state_or_clear(handle) & LOCKED_BIT != 0 ==> error == MEM_FULL_ERR
        }),
{
    let heap = manager.classic->0;
    let ptr = space.word(handle as int)->0;
    assert(heap.sizes.dom().contains(ptr));
    assert(heap.sizes.dom().contains(handle));
    assert(crate::heap_blocks::block_in_heap(heap, handle, heap.capacity_of(handle)->0));
    assert(crate::heap_blocks::block_in_heap(heap, ptr, heap.capacity_of(ptr)->0));
    let old_size = heap.sizes[ptr];
    crate::classic_heap::lemma_round_up(old_size as int, 4);
    crate::classic_heap::lemma_round_up(heap.sizes[handle] as int, 4);
    crate::classic_heap::lemma_round_up(new_size as int, 4);
    assert(crate::heap_blocks::blocks_disjoint(
        ptr as int,
        heap.capacity_of(ptr)->0 as int,
        handle as int,
        heap.capacity_of(handle)->0 as int,
    ));
    if crate::classic_heap::bucket_size(new_size as int) <= heap.capacity_of(ptr)->0
        && new_size < old_size {
        let tail = crate::guest_memory::zeros((old_size - new_size) as nat);
        if space.word(handle as int) is Some {
            crate::space_laws::word_is_spelled_by_its_bytes(space, handle as int);
            crate::space_laws::word_is_spelled_by_its_bytes(
                space.store(ptr + new_size, tail),
                handle as int,
            );
        }
    }
}

} // verus!
