//! What a relocatable block holds, and what becomes of it, whichever heap it
//! lies in.

use crate::bus::BusModel;
use crate::memory_model::{ManagerModel, LOCKED_BIT, MEM_PUR_ERR};
use vstd::prelude::*;

verus! {

/// A handle whose heap is intact: a native one whose heap lies beyond the RAM,
/// or a classic one whose heap lies in it and whose block is not its own
/// master pointer.
pub open spec fn sound_handle(manager: ManagerModel, bus: BusModel, handle: u32) -> bool {
    if manager.record(handle) is Some {
        &&& crate::native_blocks::native_blocks_apart(manager)
        &&& bus.ram.len() <= manager.native->0.heap.heap_base
    } else {
        &&& crate::bus_laws::classic_heap_in_ram(manager, bus)
        &&& bus.long(handle as int) != handle
    }
}

/// A handle whose bytes were replaced holds the new bytes. Where that is
/// refused, a classic handle and its heap stay as they were, and a native one
/// stays but for the error.
pub proof fn replaced_bytes_are_held(
    manager: ManagerModel,
    bus: BusModel,
    handle: u32,
    bytes: Seq<u8>,
)
    requires
        manager.handle_bytes(bus, handle) is Ok,
        sound_handle(manager, bus, handle),
    ensures
        ({
            let (after, written, error) = manager.replace_handle_bytes(bus, handle, bytes);
            &&& error == 0 && bytes.len() > 0 ==> after.handle_bytes(written, handle) == Ok::<
                Seq<u8>,
                i16,
            >(bytes)
            &&& error == 0 && bytes.len() == 0 && manager.record(handle) is Some
                ==> after.handle_bytes(written, handle) == Ok::<Seq<u8>, i16>(bytes)
            &&& error != 0 && manager.record(handle) is None ==> written == bus && after.classic
                == manager.classic
            &&& error != 0 && manager.record(handle) is Some ==> after == manager.mem_error(error)
            &&& manager.record(handle) is None && error != 0 ==> bytes.len() > u32::MAX
                || manager.classic->0.allocate(bytes.len() as u32, 4, manager.classic_limit->0).1
                == 0
        }),
{
    match manager.record(handle) {
        Some(record) => {
            crate::relocation_laws::replaced_handle_holds_its_bytes(
                manager,
                bus,
                handle,
                record.ptr,
                bytes,
                false,
            );
            crate::relocation_laws::relocation_keeps_native_blocks_apart(
                manager,
                bus,
                handle,
                record.ptr,
                bytes,
                false,
            );
        },
        None => {
            if bytes.len() <= u32::MAX {
                crate::bus_laws::replaced_classic_handle_holds_its_bytes(
                    manager,
                    bus,
                    handle,
                    bytes,
                );
            }
        },
    }
}

/// A handle that bytes were appended to, native or classic, holds what it held
/// before and the new bytes behind it.
pub proof fn appended_bytes_follow_what_was_held(
    manager: ManagerModel,
    bus: BusModel,
    handle: u32,
    bytes: Seq<u8>,
)
    requires
        manager.handle_bytes(bus, handle) is Ok,
        sound_handle(manager, bus, handle),
    ensures
        ({
            let present = manager.handle_bytes(bus, handle)->Ok_0;
            let (after, written, error) = manager.append_to_handle(bus, handle, bytes);
            &&& error == 0 ==> after.handle_bytes(written, handle) == Ok::<Seq<u8>, i16>(
                present + bytes,
            )
            &&& error != 0 && manager.record(handle) is None ==> written == bus && after.classic
                == manager.classic && (present.len() + bytes.len() > u32::MAX
                || manager.classic->0.allocate(
                (present.len() + bytes.len()) as u32,
                4,
                manager.classic_limit->0,
            ).1 == 0)
        }),
{
    let present = manager.handle_bytes(bus, handle)->Ok_0;
    replaced_bytes_are_held(manager, bus, handle, present + bytes);
    let (after, written, error) = manager.append_to_handle(bus, handle, bytes);
    if error == 0 && (present + bytes).len() == 0 && manager.record(handle) is None {
        let ptr = bus.long(handle as int);
        let size = manager.classic->0.size_of(ptr)->0;
        assert(size == 0);
        crate::bus_laws::replaced_classic_handle_holds_its_bytes(
            manager,
            bus,
            handle,
            present + bytes,
        );
        let (sized, ready) = manager.resize_in_place(bus, ptr, 0);
        assert(ready == bus);
        assert(written == bus.store(ptr as int, present + bytes));
        assert(written.long(handle as int) == ptr);
    }
}

/// A native handle that has room for the bytes, and whose block accepts them,
/// takes them where it is; one that must grow takes them where the heap has
/// room behind its last block.
pub proof fn native_handle_with_room_takes_bytes(
    manager: ManagerModel,
    bus: BusModel,
    handle: u32,
    bytes: Seq<u8>,
)
    requires
        manager.handle_bytes(bus, handle) is Ok,
        manager.record(handle) is Some,
        manager.native is Some,
        bytes.len() <= u32::MAX - 15,
        bus.foreign is Some,
    ensures
        ({
            let record = manager.record(handle)->0;
            let native = manager.native->0;
            let (after, written, error) = manager.replace_handle_bytes(bus, handle, bytes);
            let limit = manager.allocation_limit(native.heap.heap_limit);
            let place = crate::native_heap::native_bounds(
                bus.exclusions(),
                native.heap.heap_cursor,
                limit,
                crate::native_heap::native_size(bytes.len() as u32)->0,
            );
            &&& bytes.len() <= record.capacity && bus.foreign_accepts(
                record.ptr as int,
                bytes.len() as int,
            ) ==> error == 0 && after.record(handle)->0.ptr == record.ptr
            &&& bytes.len() > record.capacity && place is Some && (forall|a: int|
                record.ptr <= a < 0x1_0000_0000 ==> #[trigger] bus.foreign->0.writable.contains(a))
                && record.ptr <= native.heap.heap_cursor && bus.foreign_accepts(handle as int, 4)
                ==> error == 0
        }),
{
    let record = manager.record(handle)->0;
    let native = manager.native->0;
    let size = bytes.len() as u32;
    crate::native_heap::lemma_native_size(size);
    crate::native_heap::lemma_native_size(record.capacity);
    let index = crate::native_heap::handle_index(manager.records, handle);
    crate::native_heap::lemma_handle_index(manager.records, handle);
    crate::native_blocks::lemma_updated_record(
        manager.records,
        index,
        crate::native_heap::ProcessHandleRecord {
            handle,
            ptr: record.ptr,
            size,
            capacity: record.capacity,
        },
    );
    let limit = manager.allocation_limit(native.heap.heap_limit);
    let aligned = crate::native_heap::native_size(size)->0;
    crate::native_blocks::lemma_bounds_after_cursor(
        bus.exclusions(),
        native.heap.heap_cursor,
        limit,
        aligned,
    );
    crate::native_blocks::lemma_bounds_after_cursor(bus.exclusions(), record.ptr, limit, aligned);
}

/// The logical size of a handle whose bytes can be read is their number.
pub proof fn handle_size_counts_its_bytes(manager: ManagerModel, bus: BusModel, handle: u32)
    requires
        manager.handle_bytes(bus, handle) is Ok,
    ensures
        manager.handle_size(bus, handle) == Some(
            manager.handle_bytes(bus, handle)->Ok_0.len() as u32,
        ),
        manager.handle_bytes(bus, handle)->Ok_0.len() <= u32::MAX,
{
}

/// The bytes of a handle are those that its block holds in guest memory.
pub proof fn handle_bytes_are_those_of_its_block(
    manager: ManagerModel,
    bus: BusModel,
    handle: u32,
    i: int,
)
    requires
        manager.handle_bytes(bus, handle) is Ok,
        0 <= i < manager.handle_bytes(bus, handle)->Ok_0.len(),
    ensures
        handle != 0,
        bus.long(handle as int) != 0,
        manager.handle_bytes(bus, handle)->Ok_0[i] == bus.byte(
            (bus.long(handle as int) + i) % 0x1_0000_0000,
        ),
        manager.record(handle) matches Some(record) ==> record.ptr == bus.long(handle as int)
            && record.size == manager.handle_bytes(bus, handle)->Ok_0.len(),
        manager.record(handle) is None ==> manager.classic->0.size_of(bus.long(handle as int))
            == Some(manager.handle_bytes(bus, handle)->Ok_0.len() as u32),
{
}

/// A copy of a classic handle is another handle that holds the same bytes.
pub proof fn classic_copy_holds_the_same_bytes(manager: ManagerModel, bus: BusModel, handle: u32)
    requires
        manager.record(handle) is None,
        manager.handle_bytes(bus, handle) is Ok,
        crate::bus_laws::classic_heap_in_ram(manager, bus),
        manager.handle_bytes(bus, handle)->Ok_0.len() <= i32::MAX,
    ensures
        ({
            let present = manager.handle_bytes(bus, handle)->Ok_0;
            let (after, written, result) = manager.copy_handle(bus, handle);
            &&& result matches Ok((copy, ptr)) ==> {
                &&& copy != 0 && copy != handle
                &&& written.long(copy as int) == ptr
                &&& after.classic->0.size_of(copy) == Some(4u32)
                &&& ptr != 0 && manager.record(copy) is None ==> after.handle_bytes(written, copy)
                    == Ok::<Seq<u8>, i16>(present)
            }
            &&& ({
                let (block, ptr) = manager.classic->0.allocate(
                    present.len() as u32,
                    4,
                    manager.classic_limit->0,
                );
                ptr != 0 && block.allocate(4, 4, manager.classic_limit->0).1 != 0
            }) ==> result is Ok
        }),
{
    let present = manager.handle_bytes(bus, handle)->Ok_0;
    crate::bus_laws::copied_classic_handle_holds_its_bytes(manager, bus, present);
    let limit = manager.classic_limit->0;
    let heap = manager.classic->0;
    let (block, ptr) = heap.allocate(present.len() as u32, 4, limit);
    crate::heap_laws::allocated_block_is_new(heap, present.len() as u32, 4, limit);
    crate::heap_laws::allocated_block_is_new(block, 4, 4, limit);
    let master = block.allocate(4, 4, limit).1;
    assert(heap.size_of(handle) == Some(4u32));
    if master == handle {
        assert(handle != ptr ==> block.size_of(handle) == heap.size_of(handle));
        assert(block.sizes.dom().contains(handle));
    }
}

/// Of a classic handle that was disposed of nothing is left: neither its
/// master pointer nor, where that was asked for, its block is live, and it has
/// no properties. Every other block stays live.
pub proof fn disposed_classic_handle_is_gone(
    manager: ManagerModel,
    bus: BusModel,
    handle: u32,
    dispose_data: bool,
)
    requires
        manager.record(handle) is None,
        handle != 0,
        manager.classic is Some,
        !manager.native_handles.contains(handle),
    ensures
        ({
            let ptr = bus.long(handle as int);
            let (after, written, result) = manager.dispose_handle(bus, handle, dispose_data);
            let heap = after.classic->0;
            &&& result == Ok::<Option<crate::native_heap::ProcessHandleRecord>, i16>(None)
            &&& written == bus
            &&& heap.size_of(handle) is None
            &&& dispose_data && ptr != 0 ==> heap.size_of(ptr) is None
            &&& !dispose_data && ptr != handle ==> heap.size_of(ptr)
                == manager.classic->0.size_of(ptr)
            &&& after.state(handle) is None
            &&& !after.high.dom().contains(handle)
            &&& forall|other: u32|
                other != handle && other != ptr ==> heap.size_of(other)
                    == manager.classic->0.size_of(other)
            &&& forall|other: u32|
                other != handle ==> #[trigger] after.state(other) == manager.state(other)
            &&& after.records == manager.records
            &&& after.native == manager.native
        }),
{
}

/// A native handle that was disposed of is forgotten, its master pointer reads
/// as zero, and its blocks can be used again; the other handles stay. It is
/// refused where the master pointer does not lead to the block or accepts no
/// write, and then nothing changes but the error.
pub proof fn disposed_native_handle_is_gone(
    manager: ManagerModel,
    bus: BusModel,
    handle: u32,
    dispose_data: bool,
)
    requires
        crate::native_blocks::native_blocks_apart(manager),
        bus.ram.len() <= manager.native->0.heap.heap_base,
        manager.record(handle) is Some,
    ensures
        ({
            let record = manager.record(handle)->0;
            let (after, written, result) = manager.dispose_handle(bus, handle, dispose_data);
            &&& result is Ok <==> bus.long(handle as int) == record.ptr && bus.foreign_accepts(
                handle as int,
                4,
            )
            &&& result is Err ==> written == bus && after.records == manager.records
                && after.states == manager.states && after.ptr_to_handle == manager.ptr_to_handle
            &&& result is Ok ==> {
                &&& result->Ok_0 == Some(record)
                &&& after.record(handle) is None
                &&& after.state(handle) is None
                &&& !after.high.dom().contains(handle)
                &&& record.ptr != 0 ==> !after.ptr_to_handle.dom().contains(record.ptr)
                    && !after.native_ptrs.contains(record.ptr)
                &&& after.native->0.free_handles.contains(record)
                &&& written.long(handle as int) == 0
                &&& after.records.len() == manager.records.len() - 1
                &&& forall|i: int|
                    0 <= i < manager.records.len() && (#[trigger] manager.records[i]).handle
                        != handle ==> after.records.contains(manager.records[i])
            }
        }),
{
    let record = manager.record(handle)->0;
    let index = crate::native_heap::handle_index(manager.records, handle);
    let (after, written, result) = manager.dispose_handle(bus, handle, dispose_data);
    crate::native_heap::lemma_handle_index(manager.records, handle);
    if result is Ok {
        let space = bus.foreign->0;
        crate::native_blocks::dispose_native_handle_keeps_blocks_apart(manager, space, handle);
        assert(after == manager.dispose_native_handle(space, handle).0);
        assert(crate::native_blocks::has_block(manager, (2, index)));
        assert(crate::native_blocks::block_inside(manager, (2, index)));
        crate::native_heap::lemma_native_size(4);
        crate::relocation_laws::lemma_foreign_written(
            bus,
            handle as int,
            crate::guest_memory::word_bytes(0),
            0,
        );
        crate::guest_memory::lemma_word_round_trip(0);
        assert(after.native->0.free_handles.last() == record);
        assert(after.native->0.free_handles[after.native->0.free_handles.len() - 1] == record);
        assert forall|i: int|
            0 <= i < manager.records.len() && (#[trigger] manager.records[i]).handle
                != handle implies after.records.contains(manager.records[i]) by {
            let at = if i < index {
                i
            } else {
                i - 1
            };
            assert(after.records[at] == manager.records[i]);
        }
    }
}

/// Emptying a classic handle gives its block up and leaves the handle with a
/// null master pointer. A locked handle is refused and stays as it is.
pub proof fn emptied_classic_handle_has_no_block(
    manager: ManagerModel,
    bus: BusModel,
    handle: u32,
)
    requires
        handle != 0,
        manager.record(handle) is None,
        crate::bus_laws::classic_heap_in_ram(manager, bus),
        manager.classic->0.size_of(handle) == Some(4u32),
        bus.long(handle as int) != handle,
    ensures
        ({
            let ptr = bus.long(handle as int);
            let (after, written, error) = manager.empty_handle(bus, handle);
            &&& error == 0 <==> manager.state_or_clear(handle) & LOCKED_BIT == 0
            &&& error != 0 ==> error == MEM_PUR_ERR && after == manager && written == bus
            &&& error == 0 ==> {
                &&& written.long(handle as int) == 0
                &&& after.handle_bytes(written, handle) is Err
                &&& after.classic->0.size_of(handle) == Some(4u32)
                &&& ptr != 0 ==> after.classic->0.size_of(ptr) is None
                    && !after.ptr_to_handle.dom().contains(ptr)
                &&& after.states == manager.states
                &&& forall|other: u32|
                    other != ptr ==> after.classic->0.size_of(other)
                        == manager.classic->0.size_of(other)
            }
        }),
{
    let heap = manager.classic->0;
    assert(heap.sizes.dom().contains(handle));
    assert(crate::heap_blocks::block_in_heap(heap, handle, heap.capacity_of(handle)->0));
    crate::bus_laws::lemma_long_written(bus, handle as int, 0);
}

/// Emptying a native handle gives its block up for other uses and leaves the
/// handle with a null master pointer. A locked handle is refused.
pub proof fn emptied_native_handle_has_no_block(
    manager: ManagerModel,
    bus: BusModel,
    handle: u32,
)
    requires
        crate::native_blocks::native_blocks_apart(manager),
        bus.ram.len() <= manager.native->0.heap.heap_base,
        manager.record(handle) is Some,
        bus.long(handle as int) == manager.record(handle)->0.ptr,
        bus.foreign_accepts(handle as int, 4),
    ensures
        ({
            let record = manager.record(handle)->0;
            let (after, written, error) = manager.empty_handle(bus, handle);
            &&& error == 0 <==> manager.state_or_clear(handle) & LOCKED_BIT == 0
            &&& error != 0 ==> error == MEM_PUR_ERR && after == manager.mem_error(error) && written
                == bus
            &&& error == 0 ==> {
                &&& written.long(handle as int) == 0
                &&& after.record(handle) is Some
                &&& after.record(handle)->0.ptr == 0
                &&& after.record(handle)->0.size == 0
                &&& after.handle_size(written, handle) == Some(0u32)
                &&& after.states == manager.states
                &&& record.ptr != 0 ==> {
                    &&& !after.ptr_to_handle.dom().contains(record.ptr)
                    &&& after.native->0.free_ptrs.last() == (
                    crate::native_heap::ProcessPtrRecord {
                        ptr: record.ptr,
                        size: record.capacity,
                    })
                }
            }
        }),
{
    let space = bus.foreign->0;
    let index = crate::native_heap::handle_index(manager.records, handle);
    crate::native_heap::lemma_handle_index(manager.records, handle);
    assert(crate::native_blocks::has_block(manager, (2, index)));
    assert(crate::native_blocks::block_inside(manager, (2, index)));
    crate::native_heap::lemma_native_size(4);
    crate::native_blocks::lemma_updated_record(
        manager.records,
        index,
        crate::native_heap::ProcessHandleRecord { handle, ptr: 0, size: 0, capacity: 0 },
    );
    crate::relocation_laws::lemma_foreign_written(
        bus,
        handle as int,
        crate::guest_memory::word_bytes(0),
        0,
    );
    crate::guest_memory::lemma_word_round_trip(0);
}

/// A reallocated handle has a block of the size that was asked for, filled
/// with one pattern; it is neither locked nor purgeable.
pub proof fn reallocated_handle_has_the_size(
    manager: ManagerModel,
    bus: BusModel,
    handle: u32,
    size: u32,
)
    requires
        sound_handle(manager, bus, handle),
        manager.record(handle) is None ==> bus.long(handle as int) == 0
            || manager.classic->0.size_of(bus.long(handle as int)) is Some,
    ensures
        ({
            let (after, written, result) = manager.reallocate(bus, handle, size);
            &&& result is Ok ==> {
                &&& size <= i32::MAX
                &&& after.state_or_clear(handle) & LOCKED_BIT == 0
                &&& after.state_or_clear(handle) & crate::memory_model::PURGEABLE_BIT == 0
                &&& result->Ok_0.0 == (if manager.record(handle) is Some {
                    manager.record(handle)->0.ptr
                } else {
                    bus.long(handle as int)
                })
            }
            &&& result is Ok && (size > 0 || manager.record(handle) is Some) ==> {
                &&& written.long(handle as int) == result->Ok_0.1
                &&& after.handle_bytes(written, handle) is Ok
                &&& after.handle_bytes(written, handle)->Ok_0.len() == size
                &&& forall|i: int|
                    0 <= i < size ==> #[trigger] after.handle_bytes(written, handle)->Ok_0[i]
                        == 0xA5
            }
        }),
{
    let (after, written, result) = manager.reallocate(bus, handle, size);
    let fill = crate::bus::repeated(0xA5, size as nat);
    if result is Ok {
        match manager.record(handle) {
            Some(record) => {
                let (moved, reached, placed) = manager.relocate(
                    bus,
                    handle,
                    record.ptr,
                    fill,
                    true,
                );
                crate::relocation_laws::replaced_handle_holds_its_bytes(
                    manager,
                    bus,
                    handle,
                    record.ptr,
                    fill,
                    true,
                );
                crate::relocation_laws::relocation_keeps_native_blocks_apart(
                    manager,
                    bus,
                    handle,
                    record.ptr,
                    fill,
                    true,
                );
                crate::state_laws::cleared_handle_keeps_its_resource_mark(moved, handle);
                assert(after.record(handle) == moved.record(handle));
            },
            None => {
                crate::bus_laws::lemma_reallocated_classic(manager, bus, handle, size);
                let indexed = ManagerModel { ptr_to_handle: after.ptr_to_handle, ..manager };
                crate::state_laws::cleared_handle_keeps_its_resource_mark(indexed, handle);
                assert(after.state_or_clear(handle) == indexed.clear_properties(
                    handle,
                ).state_or_clear(handle));
            },
        }
    }
}

} // verus!
