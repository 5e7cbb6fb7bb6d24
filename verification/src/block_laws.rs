//! What fixed blocks, new classic handles and resource handles get and keep.

use crate::bus::BusModel;
use crate::memory_model::{
    ManagerModel, ProcessNewHandleRequest, MEM_FULL_ERR, MEM_WZ_ERR, NIL_HANDLE_ERR,
};
use vstd::prelude::*;

verus! {

/// A fixed block takes exactly the sizes that its words hold, where it is; its
/// size is then the one that was asked for. Null and what is no block are
/// refused, and a refused request changes no block.
pub proof fn fixed_block_takes_what_its_words_hold(
    manager: ManagerModel,
    bus: BusModel,
    ptr: u32,
    new_size: u32,
)
    requires
        manager.classic is Some,
    ensures
        ({
            let (after, written, error) = manager.set_ptr_size(bus, ptr, new_size);
            let capacity = match manager.native_ptr(ptr) {
                Some(record) => Some(crate::classic_heap::bucket_size(record.size as int)),
                None => match manager.classic->0.capacity_of(ptr) {
                    Some(capacity) => Some(capacity as int),
                    None => None,
                },
            };
            &&& ptr == 0 ==> error == NIL_HANDLE_ERR
            &&& ptr != 0 && capacity is None ==> error == MEM_WZ_ERR
            &&& ptr != 0 && capacity is Some ==> if new_size <= u32::MAX - 3
                && crate::classic_heap::bucket_size(new_size as int) <= capacity->0 {
                error == 0
            } else {
                error == MEM_FULL_ERR
            }
            &&& error == 0 ==> after.ptr_size(ptr) == Some(new_size)
            &&& error != 0 ==> written == bus && after.classic == manager.classic
                && after.native_ptr(ptr) == manager.native_ptr(ptr)
            &&& forall|other: u32|
                other != ptr ==> #[trigger] after.classic->0.size_of(other)
                    == manager.classic->0.size_of(other)
            &&& manager.native is Some ==> after.last_error() == error
        }),
{
    if let Some(record) = manager.native_ptr(ptr) {
        let ptrs = manager.native->0.ptrs;
        let index = crate::native_heap::ptr_index(ptrs, ptr);
        crate::native_supply::lemma_updated_ptr(
            ptrs,
            index,
            crate::native_heap::ProcessPtrRecord { ptr, size: new_size },
        );
        crate::native_heap::lemma_ptr_index(ptrs, ptr);
    }
}

/// A classic fixed block keeps its bytes up to the lesser of both sizes, and
/// what it gave up reads as zero.
pub proof fn resized_classic_block_keeps_its_bytes(
    manager: ManagerModel,
    bus: BusModel,
    ptr: u32,
    new_size: u32,
)
    requires
        crate::bus_laws::classic_heap_in_ram(manager, bus),
        manager.native_ptr(ptr) is None,
        ptr != 0,
        manager.classic->0.size_of(ptr) is Some,
    ensures
        ({
            let old_size = manager.classic->0.size_of(ptr)->0;
            let kept = if old_size < new_size {
                old_size as nat
            } else {
                new_size as nat
            };
            let (after, written, error) = manager.set_ptr_size(bus, ptr, new_size);
            error == 0 ==> {
                &&& written.load(ptr as int, kept) == bus.load(ptr as int, kept)
                &&& forall|a: int|
                    new_size <= a < old_size ==> #[trigger] written.byte(ptr + a) == 0
            }
        }),
{
    let heap = manager.classic->0;
    let old_size = heap.size_of(ptr)->0;
    let (after, written, error) = manager.set_ptr_size(bus, ptr, new_size);
    assert(heap.sizes.dom().contains(ptr));
    assert(crate::heap_blocks::block_in_heap(heap, ptr, heap.capacity_of(ptr)->0));
    crate::classic_heap::lemma_round_up(old_size as int, 4);
    if error == 0 && new_size < old_size {
        let tail = crate::guest_memory::zeros((old_size - new_size) as nat);
        assert((ptr + new_size) % 0x1_0000_0000 == ptr + new_size);
        crate::bus_laws::written_ram_is_read_back(bus, ptr + new_size, tail, 0);
        crate::bus_laws::lemma_run_apart_kept(
            bus,
            ptr + new_size,
            tail,
            ptr as int,
            new_size as nat,
        );
        assert forall|a: int| new_size <= a < old_size implies #[trigger] written.byte(ptr + a)
            == 0 by {
            let i = a - new_size;
            assert(written.load(ptr + new_size, tail.len())[i] == tail[i]);
            assert((ptr + new_size + i) % 0x1_0000_0000 == ptr + a);
        }
    }
}

/// A fixed block that was disposed of is no block of its heap any more.
pub proof fn disposed_fixed_block_is_gone(manager: ManagerModel, ptr: u32)
    requires
        manager.classic is Some,
        ptr != 0,
    ensures
        ({
            let (after, disposed) = manager.dispose_ptr(ptr);
            &&& manager.native_ptr(ptr) is Some ==> disposed == manager.native_ptr(ptr)
                && after.classic == manager.classic && after.native->0.free_ptrs.last()
                == manager.native_ptr(ptr)->0
            &&& manager.native_ptr(ptr) is None ==> {
                &&& disposed is None
                &&& after.classic->0.size_of(ptr) is None
                &&& after.native == manager.native
                &&& forall|other: u32|
                    other != ptr ==> #[trigger] after.classic->0.size_of(other)
                        == manager.classic->0.size_of(other)
            }
        }),
{
}

/// The size of a fixed block is the one that it was given.
pub proof fn size_of_a_new_block_is_the_request(
    manager: ManagerModel,
    size: u32,
    upper_bound: u32,
)
    requires
        manager.classic is Some,
        manager.classic_limit is Some,
    ensures
        ({
            let heap = manager.classic->0;
            let limit = manager.classic_limit->0;
            let (after, address) = manager.new_classic_ptr(size, upper_bound);
            &&& address != 0 && manager.native_ptr(address) is None ==> after.ptr_size(address)
                == Some(size)
            &&& address != 0 ==> heap.size_of(address) is None
            &&& address != 0 && after.classic->0.heap_ptr != heap.heap_ptr ==> {
                &&& heap.heap_ptr <= address
                &&& address + size < limit
                &&& heap.heap_ptr < upper_bound < limit ==> address + size < upper_bound
            }
            &&& address == 0 ==> after == manager || heap.plan(size, 4, limit) is Some
            &&& upper_bound >= limit && heap.plan(size, 4, limit) is Some && heap.size_of(
                heap.plan(size, 4, limit)->0.address,
            ) is None ==> address == heap.plan(size, 4, limit)->0.address
        }),
{
    let heap = manager.classic->0;
    let limit = manager.classic_limit->0;
    let ceiling = if heap.heap_ptr < upper_bound < limit {
        upper_bound
    } else {
        limit
    };
    crate::heap_laws::allocated_block_is_new(heap, size, 4, ceiling);
    crate::heap_laws::planned_block_is_placed(heap, size, 4, ceiling);
}

/// A new classic handle leads to a new block of the size that was asked for, is
/// unlocked, unpurgeable and no resource, and its block leads back to it; a
/// cleared one reads as zero. Where the heap cannot give both blocks it keeps
/// neither.
pub proof fn new_classic_handle_leads_to_its_block(
    manager: ManagerModel,
    bus: BusModel,
    size: u32,
    clear: bool,
)
    requires
        crate::bus_laws::classic_heap_in_ram(manager, bus),
    ensures
        ({
            let heap = manager.classic->0;
            let limit = manager.classic_limit->0;
            let (after, written, result) = manager.allocate_classic(bus, size, clear);
            let (with_block, ptr) = heap.allocate(size, 4, limit);
            &&& result is Ok <==> (ptr != 0 || size == 0) && with_block.allocate(4, 4, limit).1
                != 0
            &&& result matches Ok(record) ==> {
                &&& record.handle != 0 && record.handle != record.ptr
                &&& record.size == size
                &&& heap.size_of(record.handle) is None
                &&& after.classic->0.size_of(record.handle) == Some(4u32)
                &&& after.state(record.handle) == Some(0u8)
                &&& written.long(record.handle as int) == record.ptr
                &&& record.ptr != 0 ==> {
                    &&& heap.size_of(record.ptr) is None
                    &&& after.classic->0.size_of(record.ptr) == Some(size)
                    &&& after.ptr_to_handle.dom().contains(record.ptr)
                    &&& after.ptr_to_handle[record.ptr] == record.handle
                    &&& size <= record.capacity
                    &&& clear ==> forall|a: int|
                        0 <= a < size ==> #[trigger] written.byte(record.ptr + a) == 0
                }
            }
            &&& result is Err ==> {
                &&& written == bus
                &&& forall|other: u32|
                    other != 0 ==> #[trigger] after.classic->0.size_of(other) == heap.size_of(other)
            }
        }),
{
    let heap = manager.classic->0;
    let limit = manager.classic_limit->0;
    let (with_block, ptr) = heap.allocate(size, 4, limit);
    let (with_master, handle) = with_block.allocate(4, 4, limit);
    crate::bus_laws::lemma_allocation_in_ram(manager, bus, size);
    crate::bus_laws::lemma_allocation_in_ram(manager.with_heap(with_block), bus, 4);
    let (after, written, result) = manager.allocate_classic(bus, size, clear);
    if let Ok(record) = result {
        let linked = bus.store(handle as int, crate::guest_memory::word_bytes(ptr));
        crate::guest_memory::lemma_word_round_trip(ptr);
        assert(with_master.sizes.dom().contains(handle));
        assert(crate::heap_blocks::block_in_heap(
            with_master,
            handle,
            with_master.capacity_of(handle)->0,
        ));
        crate::bus_laws::lemma_long_written(bus, handle as int, ptr);
        crate::bus_laws::written_ram_is_read_back(
            bus,
            handle as int,
            crate::guest_memory::word_bytes(ptr),
            0,
        );
        if ptr != 0 {
            assert(with_master.sizes.dom().contains(ptr));
            assert(crate::heap_blocks::block_in_heap(
                with_master,
                ptr,
                with_master.capacity_of(ptr)->0,
            ));
            crate::classic_heap::lemma_round_up(size as int, 4);
            assert(crate::heap_blocks::blocks_disjoint(
                ptr as int,
                with_master.capacity_of(ptr)->0 as int,
                handle as int,
                with_master.capacity_of(handle)->0 as int,
            ));
            if clear && size > 0 {
                let zeros = crate::guest_memory::zeros(size as nat);
                crate::bus_laws::written_ram_is_read_back(linked, ptr as int, zeros, 0);
                crate::bus_laws::lemma_run_apart_kept(
                    linked,
                    ptr as int,
                    zeros,
                    handle as int,
                    4,
                );
                assert forall|a: int| 0 <= a < size implies #[trigger] written.byte(ptr + a)
                    == 0 by {
                    assert(written.load(ptr as int, size as nat)[a] == zeros[a]);
                    assert((ptr + a) % 0x1_0000_0000 == ptr + a);
                }
            }
        }
    }
}

/// The answer to a request for a classic handle names the handle and its
/// block, or the error; a negative size is refused as too large.
pub proof fn classic_answer_names_the_new_handle(
    manager: ManagerModel,
    bus: BusModel,
    request: ProcessNewHandleRequest,
)
    requires
        crate::bus_laws::classic_heap_in_ram(manager, bus),
    ensures
        ({
            let (after, written, answer) = manager.new_handle_classic(bus, request);
            let (made, linked, result) = manager.allocate_classic(
                bus,
                request.logical_size as u32,
                request.clear,
            );
            &&& answer.state_bits == 0
            &&& manager.native is Some ==> after.last_error() == answer.error
            &&& request.logical_size < 0 ==> answer.error == MEM_FULL_ERR && answer.handle == 0
                && written == bus && after.classic == manager.classic
            &&& answer.error == 0 ==> {
                &&& request.logical_size >= 0
                &&& after.classic->0.size_of(answer.handle) == Some(4u32)
                &&& written.long(answer.handle as int) == answer.data_ptr
                &&& answer.data_ptr != 0 ==> after.classic->0.size_of(answer.data_ptr) == Some(
                    request.logical_size as u32,
                )
            }
            &&& answer.error != 0 ==> answer.handle == 0 && answer.data_ptr == 0
            &&& request.logical_size >= 0 ==> (answer.error == 0 <==> result is Ok)
        }),
{
    if request.logical_size >= 0 {
        new_classic_handle_leads_to_its_block(
            manager,
            bus,
            request.logical_size as u32,
            request.clear,
        );
    }
}

/// A master pointer without a block reads as null and is a live word.
pub proof fn new_empty_classic_handle_is_null(manager: ManagerModel, bus: BusModel)
    requires
        crate::bus_laws::classic_heap_in_ram(manager, bus),
    ensures
        ({
            let (after, written, result) = manager.new_empty_classic(bus);
            let offered = manager.classic->0.allocate(4, 4, manager.classic_limit->0).1;
            &&& result is Ok <==> offered != 0
            &&& result matches Ok(handle) ==> {
                &&& handle == offered
                &&& manager.classic->0.size_of(handle) is None
                &&& after.classic->0.size_of(handle) == Some(4u32)
                &&& written.long(handle as int) == 0
            }
            &&& result is Err ==> written == bus && after.classic == manager.classic
        }),
{
    let heap = manager.classic->0;
    let (after, handle) = heap.allocate(4, 4, manager.classic_limit->0);
    crate::bus_laws::lemma_allocation_in_ram(manager, bus, 4);
    if handle != 0 {
        assert(after.sizes.dom().contains(handle));
        assert(crate::heap_blocks::block_in_heap(after, handle, after.capacity_of(handle)->0));
        crate::bus_laws::lemma_long_written(bus, handle as int, 0);
    }
}

/// A native resource handle without a block gets one that reads as zero; one
/// with a block keeps its bytes up to the lesser of both sizes. A backing block
/// that is not the handle's own is refused.
pub proof fn resized_native_resource_keeps_its_bytes(
    manager: ManagerModel,
    bus: BusModel,
    handle: u32,
    backing_ptr: u32,
    new_size: u32,
)
    requires
        crate::native_blocks::native_blocks_apart(manager),
        bus.ram.len() <= manager.native->0.heap.heap_base,
        handle != 0,
        manager.record(handle) is Some,
    ensures
        ({
            let record = manager.record(handle)->0;
            let (after, written, result) = manager.resize_resource(
                bus,
                handle,
                backing_ptr,
                new_size,
            );
            &&& record.ptr == 0 && new_size == 0 ==> result == Ok::<(u32, u32), i16>(
                (0u32, 0u32),
            ) && written == bus
            &&& record.ptr != 0 && backing_ptr != 0 && backing_ptr != record.ptr ==> result is Err
                && written == bus && after.records == manager.records
            &&& result is Ok && new_size > 0 ==> {
                &&& (result->Ok_0).0 == record.ptr
                &&& (result->Ok_0).1 == after.record(handle)->0.ptr
                &&& after.handle_bytes(written, handle) is Ok
                &&& after.handle_bytes(written, handle)->Ok_0.len() == new_size
                &&& record.ptr == 0 ==> after.handle_bytes(written, handle)->Ok_0
                    == crate::guest_memory::zeros(new_size as nat)
                &&& record.ptr != 0 ==> forall|i: int|
                    0 <= i < new_size && i < record.size ==> #[trigger] after.handle_bytes(
                        written,
                        handle,
                    )->Ok_0[i] == manager.handle_bytes(bus, handle)->Ok_0[i]
            }
        }),
{
    let record = manager.record(handle)->0;
    let zeros = crate::guest_memory::zeros(new_size as nat);
    crate::relocation_laws::replaced_handle_holds_its_bytes(manager, bus, handle, 0, zeros, true);
    crate::relocation_laws::relocation_keeps_native_blocks_apart(
        manager,
        bus,
        handle,
        0,
        zeros,
        true,
    );
    crate::relocation_laws::native_handle_keeps_its_bytes_through_the_bus(
        manager,
        bus,
        handle,
        new_size,
    );
}

/// A classic resource handle keeps its bytes up to the lesser of both sizes,
/// and its master pointer leads to its block.
pub proof fn resized_classic_resource_keeps_its_bytes(
    manager: ManagerModel,
    bus: BusModel,
    handle: u32,
    backing_ptr: u32,
    new_size: u32,
)
    requires
        crate::bus_laws::classic_heap_in_ram(manager, bus),
        crate::bus_laws::classic_handle(manager, bus, handle),
    ensures
        ({
            let ptr = bus.long(handle as int);
            let old_size = manager.classic->0.size_of(ptr)->0;
            let (after, written, result) = manager.resize_resource(
                bus,
                handle,
                backing_ptr,
                new_size,
            );
            &&& result is Ok ==> (result->Ok_0).0 == ptr && written.long(handle as int) == (
            result->Ok_0).1
            &&& result is Ok && (result->Ok_0).1 != 0 ==> {
                &&& after.handle_bytes(written, handle) is Ok
                &&& after.handle_bytes(written, handle)->Ok_0.len() == new_size
                &&& forall|i: int|
                    0 <= i < new_size && i < old_size ==> #[trigger] after.handle_bytes(
                        written,
                        handle,
                    )->Ok_0[i] == manager.handle_bytes(bus, handle)->Ok_0[i]
                &&& (result->Ok_0).1 != ptr ==> after.ptr_to_handle[(result->Ok_0).1] == handle
                    && !after.ptr_to_handle.dom().contains(ptr)
            }
            &&& result is Err ==> written == bus && after.classic == manager.classic
                && manager.classic->0.allocate(new_size, 4, manager.classic_limit->0).1 == 0
        }),
{
    let heap = manager.classic->0;
    let ptr = bus.long(handle as int);
    let old_size = heap.size_of(ptr)->0;
    let kept = if old_size < new_size {
        old_size as nat
    } else {
        new_size as nat
    };
    let (after, written, result) = manager.resize_resource(bus, handle, backing_ptr, new_size);
    assert(heap.sizes.dom().contains(ptr));
    if crate::memory_bus_model::bucket_within(
        new_size,
        crate::classic_heap::bucket_size(old_size as int),
    ) {
        crate::bus_laws::lemma_resized_in_place(manager, bus, handle, new_size);
    } else {
        crate::bus_laws::lemma_moved(manager, bus, handle, new_size);
    }
    assert(after.records == manager.records);
    if result is Ok && (result->Ok_0).1 != 0 {
        let new_ptr = (result->Ok_0).1;
        assert(after.record(handle) is None);
        let now = after.handle_bytes(written, handle)->Ok_0;
        let before = manager.handle_bytes(bus, handle)->Ok_0;
        assert forall|i: int| 0 <= i < new_size && i < old_size implies #[trigger] now[i]
            == before[i] by {
            assert(written.load(new_ptr as int, kept)[i] == bus.load(ptr as int, kept)[i]);
        }
    }
}

} // verus!
