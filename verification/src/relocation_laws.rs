//! What native blocks hold when they move through a classic bus.

use crate::bus::BusModel;
use crate::memory_model::{ManagerModel, MEM_FULL_ERR, NIL_HANDLE_ERR};
use crate::native_heap::ProcessHandleRecord;
use vstd::prelude::*;

verus! {

/// Moving a native block keeps the blocks apart. A refused request leaves the
/// manager as it was but for the error.
#[verifier::rlimit(40)]
pub proof fn relocation_keeps_native_blocks_apart(
    manager: ManagerModel,
    bus: BusModel,
    handle: u32,
    expected_ptr: u32,
    bytes: Seq<u8>,
    force: bool,
)
    requires
        crate::native_blocks::native_blocks_apart(manager),
    ensures
        ({
            let (after, written, result) = manager.relocate(
                bus,
                handle,
                expected_ptr,
                bytes,
                force,
            );
            let index = crate::native_heap::handle_index(manager.records, handle);
            &&& crate::native_blocks::native_blocks_apart(after)
            &&& result matches Err(error) ==> after == manager.mem_error(error)
            &&& result matches Ok((old_ptr, new_ptr)) ==> {
                &&& manager.record(handle) is Some
                &&& manager.record(handle)->0.ptr == old_ptr
                &&& 0 <= index < after.records.len()
                &&& after.records[index].handle == handle
                &&& after.records[index].ptr == new_ptr
                &&& after.records[index].size == bytes.len()
                &&& after.record(handle) == Some(after.records[index])
                &&& new_ptr != 0
            }
        }),
{
    let (after, written, result) = manager.relocate(bus, handle, expected_ptr, bytes, force);
    let native = manager.native->0;
    crate::native_blocks::reporting_keeps_native_blocks_apart(manager, MEM_FULL_ERR);
    crate::native_blocks::reporting_keeps_native_blocks_apart(manager, NIL_HANDLE_ERR);
    if let Ok((old_ptr, new_ptr)) = result {
        let index = crate::native_heap::handle_index(manager.records, handle);
        let record = manager.record(handle)->0;
        crate::native_heap::lemma_handle_index(manager.records, handle);
        assert(crate::native_blocks::fits_block(manager.records[index]));
        let size = bytes.len() as u32;
        let aligned = crate::native_heap::native_size(size)->0;
        let limit = manager.allocation_limit(native.heap.heap_limit);
        let frees = native.free_ptrs.len() as int;
        crate::native_heap::lemma_native_size(size);
        crate::native_heap::lemma_native_size(record.capacity);
        crate::native_heap::lemma_best_ptr(native.free_ptrs, aligned, limit, Some(record.ptr));
        crate::native_blocks::lemma_bounds_after_cursor(
            bus.exclusions(),
            native.heap.heap_cursor,
            limit,
            aligned,
        );
        crate::native_blocks::lemma_bounds_after_cursor(
            bus.exclusions(),
            record.ptr,
            limit,
            aligned,
        );
        let (ptr, reused, cursor, capacity) = manager.relocation(
            native,
            bus.exclusions(),
            record,
            size,
            aligned,
            force,
        )->0;
        let placed = ProcessHandleRecord { handle, ptr, size, capacity };
        assert(after.records == manager.records.update(index, placed));
        crate::native_blocks::lemma_updated_record(manager.records, index, placed);
        if record.ptr != 0 {
            assert(crate::native_blocks::has_block(manager, (3, index)));
            assert(crate::native_blocks::block_inside(manager, (3, index)));
        }
        if !force && size <= record.capacity {
            crate::native_blocks::lemma_occupied_grows(size, record.capacity);
            crate::native_blocks::lemma_refit(
                manager,
                after,
                |b: (int, int)| b,
                |b: (int, int)| false,
            );
        } else if ptr == record.ptr {
            crate::native_blocks::lemma_occupied_grows(record.capacity, size);
            crate::native_blocks::lemma_extend(manager, after, (3, index));
        } else {
            if reused >= 0 {
                assert(crate::native_blocks::has_block(manager, (1, reused)));
                assert(crate::native_blocks::block_inside(manager, (1, reused)));
            }
            let left = if reused >= 0 {
                frees - 1
            } else {
                frees
            };
            crate::native_blocks::lemma_refit(
                manager,
                after,
                |b: (int, int)|
                    if b == (3int, index) {
                        (1, reused)
                    } else if b == (1int, left) {
                        (3, index)
                    } else if b.0 == 1 && reused >= 0 {
                        (1, crate::native_blocks::moved_from(b.1, reused, frees))
                    } else {
                        b
                    },
                |b: (int, int)| reused < 0 && b == (3int, index),
            );
        }
    }
}

/// A write through the attached address space is read back through the bus,
/// and every other address keeps its byte.
pub(crate) proof fn lemma_foreign_written(bus: BusModel, address: int, data: Seq<u8>, other: int)
    requires
        bus.foreign is Some,
        bus.ram.len() <= address,
        address + data.len() <= 0x1_0000_0000,
    ensures
        bus.foreign_store(address, data).load(address, data.len()) == data,
        !(address <= other < address + data.len()) ==> bus.foreign_store(address, data).byte(other)
            == bus.byte(other),
{
    let space = bus.foreign->0;
    let after = bus.foreign_store(address, data);
    crate::guest_memory::written_bytes_are_read_back(space, address, data, other);
    assert forall|i: int| 0 <= i < data.len() implies #[trigger] after.load(address, data.len())[i]
        == data[i] by {
        assert((address + i) % 0x1_0000_0000 == address + i);
    }
    assert(after.load(address, data.len()) =~= data);
}

/// A run that a write does not meet is kept.
proof fn lemma_foreign_run_kept(
    bus: BusModel,
    address: int,
    data: Seq<u8>,
    other: int,
    len: nat,
)
    requires
        bus.foreign is Some,
        bus.ram.len() <= address,
        address + data.len() <= 0x1_0000_0000,
        0 <= other,
        other + len <= 0x1_0000_0000,
        other + len <= address || address + data.len() <= other,
    ensures
        bus.foreign_store(address, data).load(other, len) == bus.load(other, len),
{
    let after = bus.foreign_store(address, data);
    assert forall|i: int| 0 <= i < len implies #[trigger] after.load(other, len)[i] == bus.load(
        other,
        len,
    )[i] by {
        assert((other + i) % 0x1_0000_0000 == other + i);
        lemma_foreign_written(bus, address, data, other + i);
    }
    assert(after.load(other, len) =~= bus.load(other, len));
}

/// A native handle whose bytes were replaced through the bus holds them.
pub proof fn replaced_handle_holds_its_bytes(
    manager: ManagerModel,
    bus: BusModel,
    handle: u32,
    expected_ptr: u32,
    bytes: Seq<u8>,
    force: bool,
)
    requires
        crate::native_blocks::native_blocks_apart(manager),
        bus.ram.len() <= manager.native->0.heap.heap_base,
    ensures
        ({
            let (after, written, result) = manager.relocate(
                bus,
                handle,
                expected_ptr,
                bytes,
                force,
            );
            result is Ok ==> after.handle_bytes(written, handle) == Ok::<Seq<u8>, i16>(bytes)
        }),
{
    let (after, written, result) = manager.relocate(bus, handle, expected_ptr, bytes, force);
    relocation_keeps_native_blocks_apart(manager, bus, handle, expected_ptr, bytes, force);
    if let Ok((old_ptr, new_ptr)) = result {
        let index = crate::native_heap::handle_index(manager.records, handle);
        let record = after.records[index];
        let stored = bus.foreign_store(new_ptr as int, bytes);
        assert(crate::native_blocks::fits_block(record));
        assert(crate::native_blocks::has_block(after, (2, index)));
        assert(crate::native_blocks::block_inside(after, (2, index)));
        assert(crate::native_blocks::has_block(after, (3, index)));
        assert(crate::native_blocks::block_inside(after, (3, index)));
        assert(crate::native_blocks::blocks_separate(after, (2, index), (3, index)));
        crate::native_heap::lemma_native_size(4);
        crate::native_heap::lemma_native_size(record.size);
        crate::guest_memory::lemma_word_round_trip(new_ptr);
        lemma_foreign_written(bus, new_ptr as int, bytes, 0);
        lemma_foreign_run_kept(bus, new_ptr as int, bytes, handle as int, 4);
        if new_ptr != old_ptr {
            let word = crate::guest_memory::word_bytes(new_ptr);
            lemma_foreign_written(stored, handle as int, word, 0);
            lemma_foreign_run_kept(stored, handle as int, word, new_ptr as int, bytes.len());
        }
    }
}

/// A native handle keeps its bytes, up to the lesser of both sizes, however it
/// is resized through the bus, and reads as zero behind them. A refused
/// request leaves the manager as it was but for the error.
pub proof fn native_handle_keeps_its_bytes_through_the_bus(
    manager: ManagerModel,
    bus: BusModel,
    handle: u32,
    new_size: u32,
)
    requires
        crate::native_blocks::native_blocks_apart(manager),
        bus.ram.len() <= manager.native->0.heap.heap_base,
        handle != 0,
        manager.record(handle) is Some,
    ensures
        ({
            let old_size = manager.record(handle)->0.size;
            let (after, written, error) = manager.set_handle_size(bus, handle, new_size);
            &&& crate::native_blocks::native_blocks_apart(after)
            &&& error != 0 ==> after == manager.mem_error(error)
            &&& error == 0 ==> {
                let before = manager.handle_bytes(bus, handle);
                let kept = if old_size < new_size {
                    old_size as nat
                } else {
                    new_size as nat
                };
                &&& before is Ok
                &&& after.handle_bytes(written, handle) == Ok::<Seq<u8>, i16>(
                    before->Ok_0.take(kept as int) + crate::guest_memory::zeros(
                        (new_size - kept) as nat,
                    ),
                )
            }
        }),
{
    let record = manager.record(handle)->0;
    let kept = if record.size < new_size {
        record.size as nat
    } else {
        new_size as nat
    };
    let bytes = bus.load(record.ptr as int, kept) + crate::guest_memory::zeros(
        (new_size - kept) as nat,
    );
    relocation_keeps_native_blocks_apart(manager, bus, handle, record.ptr, bytes, false);
    replaced_handle_holds_its_bytes(manager, bus, handle, record.ptr, bytes, false);
    assert(bus.load(record.ptr as int, record.size as nat).take(kept as int) =~= bus.load(
        record.ptr as int,
        kept,
    ));
}

} // verus!
