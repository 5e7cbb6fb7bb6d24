//! What native blocks hold through allocations and resizes.

use crate::guest_memory::SpaceModel;
use crate::memory_model::ManagerModel;
use crate::native_heap::ProcessHandleRecord;
use vstd::prelude::*;

verus! {

/// An address holds after an operation what it held before.
pub open spec fn byte_kept(before: SpaceModel, after: SpaceModel, address: int) -> bool {
    &&& after.bytes.dom().contains(address) == before.bytes.dom().contains(address)
    &&& before.bytes.dom().contains(address) ==> after.bytes[address] == before.bytes[address]
}

/// A word whose bytes are kept is kept.
proof fn lemma_word_kept(before: SpaceModel, after: SpaceModel, address: int)
    requires
        forall|a: int| address <= a < address + 4 ==> #[trigger] byte_kept(before, after, a),
    ensures
        after.word(address) == before.word(address),
{
    assert(byte_kept(before, after, address));
    assert(byte_kept(before, after, address + 1));
    assert(byte_kept(before, after, address + 2));
    assert(byte_kept(before, after, address + 3));
    if before.mapped(address, 4) {
        assert forall|a: int| address <= a < address + 4 implies #[trigger] after.bytes.dom().contains(
            a,
        ) by {
            assert(byte_kept(before, after, a));
        }
        assert(after.load(address, 4) =~= before.load(address, 4));
    } else if after.mapped(address, 4) {
        assert forall|a: int| address <= a < address + 4 implies #[trigger] before.bytes.dom().contains(
            a,
        ) by {
            assert(byte_kept(before, after, a));
        }
    }
}

/// Making a block ready changes no byte outside it.
proof fn lemma_prepared(space: SpaceModel, ptr: u32, required: u32, clear: bool, address: int)
    ensures
        crate::memory_model::prepared(space, ptr, required, clear) matches Some(ready) ==> {
            &&& !(ptr <= address < ptr + required) ==> byte_kept(space, ready, address)
            &&& space.bytes.dom().contains(address) ==> ready.bytes.dom().contains(address)
        },
{
}

/// Writing a run changes no byte outside it, and a complete run is read back.
proof fn lemma_run_written(space: SpaceModel, address: int, data: Seq<u8>, other: int)
    ensures
        ({
            let (written, complete) = crate::guest_memory::write_run(space, address, data);
            &&& !(address <= other < address + data.len()) ==> byte_kept(space, written, other)
            &&& space.bytes.dom().contains(other) ==> written.bytes.dom().contains(other)
            &&& complete ==> written == space.store(address, data)
        }),
{
    let stop = crate::guest_memory::writable_run(space, address, address + data.len());
    lemma_run_stops(space, address, address + data.len());
    if stop == address + data.len() {
        assert(data.take(stop - address) =~= data);
    }
}

proof fn lemma_run_stops(space: SpaceModel, from: int, to: int)
    ensures
        from <= to ==> from <= crate::guest_memory::writable_run(space, from, to) <= to,
    decreases to - from,
{
    if from < to && space.writable.contains(from) {
        lemma_run_stops(space, from + 1, to);
    }
}

/// Allocating a fixed block changes no byte outside the block.
pub proof fn new_native_ptr_touches_only_its_block(
    manager: ManagerModel,
    space: SpaceModel,
    size: u32,
    clear: bool,
    address: int,
)
    requires
        manager.native is Some,
    ensures
        ({
            let (after, ready, ptr) = manager.new_native_ptr(space, size, clear);
            !(ptr <= address < ptr + crate::native_blocks::occupied(size)) ==> byte_kept(
                space,
                ready,
                address,
            )
        }),
{
    let (after, ready, ptr) = manager.new_native_ptr(space, size, clear);
    if let Some(required) = crate::native_heap::native_size(size) {
        let native = manager.native->0;
        if let Some((place, reused, cursor)) = crate::memory_model::place_block(
            native,
            space.exclusions,
            manager.allocation_limit(native.heap.heap_limit),
            required,
            None,
        ) {
            lemma_prepared(space, place, required, clear, address);
        }
    }
}

/// The master pointer of a new handle leads to its block, the block leads back
/// to the handle, and no byte outside the two changes.
pub proof fn new_native_handle_leads_to_its_block(
    manager: ManagerModel,
    space: SpaceModel,
    size: u32,
    clear: bool,
    address: int,
)
    requires
        crate::native_blocks::native_blocks_apart(manager),
    ensures
        ({
            let (after, ready, handle) = manager.allocate_native_handle(space, size, clear);
            let record = after.record(handle)->0;
            handle != 0 ==> {
                &&& after.record(handle) is Some
                &&& ready.word(handle as int) == Some(record.ptr)
                &&& after.ptr_to_handle.dom().contains(record.ptr)
                &&& after.ptr_to_handle[record.ptr] == handle
                &&& after.state(handle) == Some(0u8)
                &&& !(handle <= address < handle + 16) && !(record.ptr <= address < record.ptr
                    + crate::native_blocks::occupied(size)) ==> byte_kept(space, ready, address)
            }
        }),
{
    let (after, ready, handle) = manager.allocate_native_handle(space, size, clear);
    crate::native_blocks::new_native_handle_keeps_blocks_apart(manager, space, size, clear);
    if handle != 0 {
        let required = crate::native_heap::native_size(size)->0;
        let (record, reused, block, cursor) = manager.choose_handle(
            manager.native->0,
            space.exclusions,
            size,
            required,
        )->0;
        let master_ready = crate::memory_model::prepared(space, record.handle, 16, true)->0;
        let block_ready = crate::memory_model::prepared(
            master_ready,
            record.ptr,
            required,
            clear,
        )->0;
        lemma_prepared(space, record.handle, 16, true, address);
        lemma_prepared(master_ready, record.ptr, required, clear, address);
        crate::guest_memory::written_word_is_read_back(block_ready, handle as int, record.ptr);
    }
}

/// A handle that was made for bytes holds them, under a master pointer that
/// leads to them.
pub proof fn copied_handle_holds_its_bytes(manager: ManagerModel, space: SpaceModel, bytes: Seq<u8>)
    requires
        crate::native_blocks::native_blocks_apart(manager),
        bytes.len() <= u32::MAX,
    ensures
        ({
            let (after, ready, handle) = manager.copy_to_native(space, bytes);
            let record = after.record(handle)->0;
            handle != 0 ==> {
                &&& after.record(handle) is Some
                &&& record.size == bytes.len()
                &&& ready.mapped(record.ptr as int, bytes.len() as int)
                &&& ready.load(record.ptr as int, bytes.len()) == bytes
                &&& ready.word(handle as int) == Some(record.ptr)
                &&& after.ptr_to_handle.dom().contains(record.ptr)
                &&& after.ptr_to_handle[record.ptr] == handle
                &&& after.state(handle) == Some(0u8)
            }
        }),
{
    let (after, ready, handle) = manager.copy_to_native(space, bytes);
    if handle != 0 {
        let size = bytes.len() as u32;
        let (allocated, prepared, made) = manager.allocate_native_handle(space, size, false);
        crate::native_blocks::new_native_handle_keeps_blocks_apart(manager, space, size, false);
        new_native_handle_leads_to_its_block(manager, space, size, false, 0);
        let record = allocated.record(handle)->0;
        let index = allocated.records.len() - 1;
        crate::native_heap::lemma_native_size(size);
        assert(crate::native_blocks::has_block(allocated, (2, index)));
        assert(crate::native_blocks::has_block(allocated, (3, index)));
        assert(crate::native_blocks::blocks_separate(allocated, (2, index), (3, index)));
        assert(crate::native_blocks::fits_block(allocated.records[index]));
        crate::guest_memory::written_bytes_are_read_back(
            prepared,
            record.ptr as int,
            bytes,
            0,
        );
        assert forall|a: int| handle <= a < handle + 4 implies #[trigger] byte_kept(
            prepared,
            ready,
            a,
        ) by {
            crate::guest_memory::written_bytes_are_read_back(
                prepared,
                record.ptr as int,
                bytes,
                a,
            );
        }
        lemma_word_kept(prepared, ready, handle as int);
    }
}

/// No mapped byte of a space behind an address refuses writes.
pub open spec fn writable_from(space: SpaceModel, base: int) -> bool {
    forall|a: int|
        base <= a && #[trigger] space.bytes.dom().contains(a) ==> space.writable.contains(a)
}

/// A block of a writable heap that was made ready takes writes.
pub(crate) proof fn lemma_prepared_writable(space: SpaceModel, ptr: u32, required: u32, clear: bool, base: int)
    requires
        writable_from(space, base),
        base <= ptr,
        ptr + required <= u32::MAX,
    ensures
        crate::memory_model::prepared(space, ptr, required, clear) matches Some(ready) && ready.accepts(
            ptr as int,
            required as int,
        ) && writable_from(ready, base),
{
    if space.mapped(ptr as int, required as int) {
        assert forall|a: int| ptr <= a < ptr + required implies #[trigger] space.writable.contains(
            a,
        ) by {
            assert(space.bytes.dom().contains(a));
        }
    }
    if let Some(ready) = crate::memory_model::prepared(space, ptr, required, clear) {
        assert forall|a: int| ptr <= a < ptr + required implies #[trigger] ready.writable.contains(
            a,
        ) by {
            if space.bytes.dom().contains(a) {
                assert(space.writable.contains(a));
            }
        }
    }
}

/// Where no mapped byte of the heap refuses writes, the block of every copy
/// takes its bytes.
pub proof fn writable_heap_takes_every_copy(
    manager: ManagerModel,
    space: SpaceModel,
    bytes: Seq<u8>,
)
    requires
        crate::native_blocks::native_blocks_apart(manager),
        writable_from(space, manager.native->0.heap.heap_base as int),
    ensures
        manager.copy_to_native_fits(space, bytes),
{
    if bytes.len() <= u32::MAX {
        let size = bytes.len() as u32;
        let base = manager.native->0.heap.heap_base as int;
        let (manager_after, ready, handle) = manager.new_native_handle(space, size, false);
        let (allocated, linked, made) = manager.allocate_native_handle(space, size, false);
        crate::native_blocks::new_native_handle_keeps_blocks_apart(manager, space, size, false);
        if size <= i32::MAX && made != 0 {
            let index = allocated.records.len() - 1;
            let required = crate::native_heap::native_size(size)->0;
            let record = allocated.records.last();
            crate::native_heap::lemma_native_size(size);
            crate::native_heap::lemma_native_size(4);
            assert(crate::native_blocks::has_block(allocated, (2, index)));
            assert(crate::native_blocks::has_block(allocated, (3, index)));
            assert(crate::native_blocks::block_inside(allocated, (2, index)));
            assert(crate::native_blocks::block_inside(allocated, (3, index)));
            assert(crate::native_blocks::fits_block(record));
            lemma_prepared_writable(space, record.handle, 16, true, base);
            let master_ready = crate::memory_model::prepared(space, record.handle, 16, true)->0;
            lemma_prepared_writable(master_ready, record.ptr, required, false, base);
        } else if manager_after.record(handle) is Some {
            crate::native_heap::lemma_handle_index(manager.records, 0);
            let index = crate::native_heap::handle_index(manager.records, 0);
            assert(crate::native_blocks::has_block(manager, (2, index)));
            assert(crate::native_blocks::block_inside(manager, (2, index)));
        }
    }
}

/// The bytes of a growing block are in its new place.
proof fn lemma_grown_bytes(
    manager: ManagerModel,
    space: SpaceModel,
    record: ProcessHandleRecord,
    size: u32,
)
    requires
        crate::native_blocks::native_blocks_apart(manager),
        manager.record(record.handle) == Some(record),
        record.ptr != 0,
        size > record.capacity,
        space.word(record.handle as int) == Some(record.ptr),
    ensures
        ({
            let (after, left, error) = manager.grow_native_handle(space, record, size);
            let grown = after.record(record.handle)->0;
            error == 0 ==> {
                &&& after.record(record.handle) is Some
                &&& grown.ptr != 0
                &&& grown.capacity == size
                &&& left.mapped(grown.ptr as int, record.size as int)
                &&& left.load(grown.ptr as int, record.size as nat) == space.load(
                    record.ptr as int,
                    record.size as nat,
                )
                &&& left.word(record.handle as int) == Some(grown.ptr)
                &&& forall|a: int|
                    !(record.handle <= a < record.handle + 4) && !(grown.ptr <= a < grown.ptr
                        + crate::native_blocks::occupied(size)) ==> #[trigger] byte_kept(
                        space,
                        left,
                        a,
                    )
            }
        }),
{
    let (after, left, error) = manager.grow_native_handle(space, record, size);
    let handle = record.handle;
    crate::native_heap::lemma_handle_index(manager.records, handle);
    crate::native_resize::resize_native_handle_keeps_blocks_apart(manager, space, handle, size);
    if error == 0 {
        let index = crate::native_heap::handle_index(manager.records, handle);
        let native = manager.native->0;
        let old_aligned = crate::native_heap::native_size(record.size)->0;
        let new_aligned = crate::native_heap::native_size(size)->0;
        let (ptr, cursor) = manager.grown_block(
            native,
            space.exclusions,
            record.ptr,
            old_aligned,
            new_aligned,
        )->0;
        let bytes = space.load(record.ptr as int, record.size as nat);
        let ready = crate::memory_model::prepared(space, ptr, new_aligned, true)->0;
        let copied = crate::guest_memory::write_run(ready, ptr as int, bytes).0;
        let grown = ProcessHandleRecord { handle, ptr, size, capacity: size };
        assert(after.records == manager.records.update(index, grown));
        crate::native_blocks::lemma_updated_record(manager.records, index, grown);
        crate::native_heap::lemma_native_size(size);
        crate::native_heap::lemma_native_size(record.size);
        assert(crate::native_blocks::fits_block(record));
        crate::native_blocks::lemma_occupied_grows(record.capacity, size);
        crate::native_blocks::lemma_bounds_after_cursor(
            space.exclusions,
            native.heap.heap_cursor,
            manager.allocation_limit(native.heap.heap_limit),
            new_aligned,
        );
        assert(crate::native_blocks::has_block(after, (2, index)));
        assert(crate::native_blocks::has_block(after, (3, index)));
        assert(crate::native_blocks::block_inside(after, (3, index)));
        assert(crate::native_blocks::blocks_separate(after, (2, index), (3, index)));
        lemma_run_written(ready, ptr as int, bytes, 0);
        crate::guest_memory::written_bytes_are_read_back(ready, ptr as int, bytes, 0);
        assert forall|a: int|
            !(handle <= a < handle + 4) && !(ptr <= a < ptr + new_aligned) implies #[trigger] byte_kept(
            space,
            left,
            a,
        ) by {
            lemma_prepared(space, ptr, new_aligned, true, a);
            lemma_run_written(ready, ptr as int, bytes, a);
        }
        if ptr != record.ptr {
            crate::guest_memory::written_word_is_read_back(copied, handle as int, ptr);
            assert(left.load(ptr as int, record.size as nat) =~= bytes);
        } else {
            assert forall|a: int| handle <= a < handle + 4 implies #[trigger] byte_kept(
                space,
                left,
                a,
            ) by {
                lemma_prepared(space, ptr, new_aligned, true, a);
                lemma_run_written(ready, ptr as int, bytes, a);
            }
            lemma_word_kept(space, left, handle as int);
        }
    }
}

/// A handle keeps its bytes, up to the lesser of both sizes, however it is
/// resized, and its master pointer leads to them. The bytes of every other
/// block stay.
pub proof fn resized_handle_keeps_its_bytes(
    manager: ManagerModel,
    space: SpaceModel,
    handle: u32,
    size: u32,
    other: (int, int),
    address: int,
)
    requires
        crate::native_blocks::native_blocks_apart(manager),
        manager.record(handle) is Some,
        manager.record(handle)->0.ptr != 0,
    ensures
        ({
            let (after, left, error) = manager.set_native_handle_size(space, handle, size);
            let before = manager.record(handle)->0;
            let resized = after.record(handle)->0;
            let index = crate::native_heap::handle_index(manager.records, handle);
            let kept = if before.size < size {
                before.size as nat
            } else {
                size as nat
            };
            error == 0 ==> {
                &&& after.record(handle) is Some
                &&& resized.size == size
                &&& left.word(handle as int) == Some(resized.ptr)
                &&& left.load(resized.ptr as int, kept) == space.load(before.ptr as int, kept)
                &&& space.mapped(before.ptr as int, kept as int) ==> left.mapped(
                    resized.ptr as int,
                    kept as int,
                )
                &&& crate::native_blocks::has_block(after, other) && other != (2int, index) && other
                    != (3int, index) && crate::native_blocks::block_start(after, other) <= address
                    < crate::native_blocks::block_end(after, other) ==> byte_kept(
                    space,
                    left,
                    address,
                )
            }
        }),
{
    let (after, left, error) = manager.set_native_handle_size(space, handle, size);
    let before = manager.record(handle)->0;
    let index = crate::native_heap::handle_index(manager.records, handle);
    crate::native_heap::lemma_handle_index(manager.records, handle);
    crate::native_resize::resize_native_handle_keeps_blocks_apart(manager, space, handle, size);
    if error == 0 {
        if size <= before.capacity {
            let resized = ProcessHandleRecord { size, ..before };
            crate::native_blocks::lemma_updated_record(manager.records, index, resized);
        } else {
            lemma_grown_bytes(manager, space, before, size);
            let grown = after.record(handle)->0;
            let kept = if before.size < size {
                before.size as nat
            } else {
                size as nat
            };
            let old_bytes = space.load(before.ptr as int, before.size as nat);
            let new_bytes = left.load(grown.ptr as int, before.size as nat);
            assert(left.load(grown.ptr as int, kept) =~= new_bytes.take(kept as int));
            assert(space.load(before.ptr as int, kept) =~= old_bytes.take(kept as int));
            assert(after.records == manager.records.update(index, after.records[index]));
            crate::native_blocks::lemma_updated_record(
                manager.records,
                index,
                after.records[index],
            );
            assert(crate::native_blocks::has_block(after, (2, index)));
            assert(crate::native_blocks::block_inside(after, (2, index)));
            assert(crate::native_blocks::has_block(after, (3, index)));
            crate::native_heap::lemma_native_size(4);
        }
    }
}

/// A handle that bytes were appended to holds what it held, followed by them.
pub proof fn appended_handle_holds_both(
    manager: ManagerModel,
    space: SpaceModel,
    handle: u32,
    bytes: Seq<u8>,
)
    requires
        crate::native_blocks::native_blocks_apart(manager),
        manager.record(handle) is Some,
        manager.record(handle)->0.ptr != 0,
        space.mapped(manager.record(handle)->0.ptr as int, manager.record(handle)->0.size as int),
    ensures
        ({
            let (after, left, error) = manager.append_to_native(space, handle, bytes);
            let before = manager.record(handle)->0;
            let appended = after.record(handle)->0;
            error == 0 ==> {
                &&& after.record(handle) is Some
                &&& appended.size == before.size + bytes.len()
                &&& left.load(appended.ptr as int, before.size as nat) == space.load(
                    before.ptr as int,
                    before.size as nat,
                )
                &&& left.load(appended.ptr + before.size, bytes.len()) == bytes
            }
        }),
{
    let (after, left, error) = manager.append_to_native(space, handle, bytes);
    let before = manager.record(handle)->0;
    if error == 0 {
        let size = (before.size + bytes.len()) as u32;
        let (sized, ready, resized) = manager.set_native_handle_size(space, handle, size);
        resized_handle_keeps_its_bytes(manager, space, handle, size, (0, 0), 0);
        let target = sized.record(handle)->0.ptr + before.size;
        lemma_run_written(ready, target, bytes, 0);
        crate::guest_memory::written_bytes_are_read_back(ready, target, bytes, 0);
        let block = sized.record(handle)->0.ptr as int;
        assert forall|i: int| 0 <= i < before.size implies #[trigger] left.load(
            block,
            before.size as nat,
        )[i] == ready.load(block, before.size as nat)[i] by {
            assert(ready.bytes.dom().contains(block + i));
            crate::guest_memory::written_bytes_are_read_back(ready, target, bytes, block + i);
        }
        assert(left.load(block, before.size as nat) =~= ready.load(block, before.size as nat));
    }
}

/// A fixed block that takes the place of another holds its leading bytes.
pub proof fn reallocated_block_keeps_its_bytes(
    manager: ManagerModel,
    space: SpaceModel,
    ptr: u32,
    size: u32,
)
    requires
        ptr != 0,
        manager.native_ptr(ptr) is Some,
    ensures
        ({
            let (after, left, replacement) = manager.reallocate_native_ptr(space, ptr, size);
            let before = manager.native_ptr(ptr)->0;
            let kept = if before.size < size {
                before.size as nat
            } else {
                size as nat
            };
            replacement != 0 ==> left.load(replacement as int, kept) == space.load(
                ptr as int,
                kept,
            )
        }),
{
    let (after, left, replacement) = manager.reallocate_native_ptr(space, ptr, size);
    let before = manager.native_ptr(ptr)->0;
    let kept = if before.size < size {
        before.size as nat
    } else {
        size as nat
    };
    if replacement != 0 {
        let ready = manager.new_native_ptr(space, size, false).1;
        crate::guest_memory::written_bytes_are_read_back(
            ready,
            replacement as int,
            space.load(ptr as int, kept),
            0,
        );
    }
}

} // verus!
