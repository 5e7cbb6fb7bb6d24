//! What relocatable classic blocks hold through copies and resizes.

use crate::bus::BusModel;
use crate::memory_model::ManagerModel;
use vstd::prelude::*;

verus! {

/// A run of addresses lies in RAM.
pub open spec fn in_ram(bus: BusModel, address: int, len: int) -> bool {
    0 <= address && address + len <= bus.ram.len() <= 0x1_0000_0000
}

/// A run written to RAM replaces the bytes of its addresses.
pub proof fn lemma_store_in_ram(bus: BusModel, address: int, data: Seq<u8>)
    requires
        in_ram(bus, address, data.len() as int),
    ensures
        bus.store(address, data).foreign == bus.foreign,
        bus.store(address, data).ram == Seq::new(
            bus.ram.len(),
            |k: int|
                if address <= k < address + data.len() {
                    data[k - address]
                } else {
                    bus.ram[k]
                },
        ),
    decreases data.len(),
{
    let stored = Seq::new(
        bus.ram.len(),
        |k: int|
            if address <= k < address + data.len() {
                data[k - address]
            } else {
                bus.ram[k]
            },
    );
    if data.len() == 0 {
        assert(stored =~= bus.ram);
    } else {
        lemma_store_in_ram(bus, address, data.drop_last());
        let before = bus.store(address, data.drop_last());
        let place = address + data.len() - 1;
        assert(place % 0x1_0000_0000 == place);
        assert(before.ram.update(place, data.last()) =~= stored);
    }
}

/// What was written to RAM is read back, and every other address keeps its
/// byte.
pub proof fn written_ram_is_read_back(bus: BusModel, address: int, data: Seq<u8>, other: int)
    requires
        in_ram(bus, address, data.len() as int),
        0 <= other,
    ensures
        bus.store(address, data).load(address, data.len()) == data,
        bus.store(address, data).ram.len() == bus.ram.len(),
        !(address <= other < address + data.len()) ==> bus.store(address, data).byte(other)
            == bus.byte(other),
{
    lemma_store_in_ram(bus, address, data);
    let after = bus.store(address, data);
    assert forall|i: int| 0 <= i < data.len() implies #[trigger] after.load(address, data.len())[i]
        == data[i] by {
        assert((address + i) % 0x1_0000_0000 == address + i);
    }
    assert(after.load(address, data.len()) =~= data);
}

/// A run of bytes is the same on two buses.
pub open spec fn run_kept(before: BusModel, after: BusModel, address: int, len: nat) -> bool {
    after.load(address, len) == before.load(address, len)
}

/// A run in RAM that a write does not meet is kept.
pub(crate) proof fn lemma_run_apart_kept(
    bus: BusModel,
    address: int,
    data: Seq<u8>,
    other: int,
    len: nat,
)
    requires
        in_ram(bus, address, data.len() as int),
        in_ram(bus, other, len as int),
        other + len <= address || address + data.len() <= other,
    ensures
        run_kept(bus, bus.store(address, data), other, len),
{
    let after = bus.store(address, data);
    assert forall|i: int| 0 <= i < len implies #[trigger] after.load(other, len)[i] == bus.load(
        other,
        len,
    )[i] by {
        assert((other + i) % 0x1_0000_0000 == other + i);
        written_ram_is_read_back(bus, address, data, other + i);
    }
    assert(after.load(other, len) =~= bus.load(other, len));
}

/// A word in RAM that was written is read back.
pub(crate) proof fn lemma_long_written(bus: BusModel, address: int, value: u32)
    requires
        in_ram(bus, address, 4),
    ensures
        bus.store(address, crate::guest_memory::word_bytes(value)).long(address) == value,
{
    crate::guest_memory::lemma_word_round_trip(value);
    written_ram_is_read_back(bus, address, crate::guest_memory::word_bytes(value), 0);
}

/// The classic heap of a manager is intact and lies in the RAM of a bus.
pub open spec fn classic_heap_in_ram(manager: ManagerModel, bus: BusModel) -> bool {
    &&& manager.classic is Some
    &&& manager.classic_limit is Some
    &&& crate::heap_blocks::heap_blocks_apart(manager.classic->0)
    &&& manager.classic->0.heap_ptr <= bus.ram.len() <= 0x1_0000_0000
    &&& manager.classic_limit->0 <= bus.ram.len()
}

/// The cursor stays below the limit where a request is served.
pub(crate) proof fn lemma_allocation_in_ram(manager: ManagerModel, bus: BusModel, size: u32)
    requires
        classic_heap_in_ram(manager, bus),
    ensures
        ({
            let (after, address) = manager.classic->0.allocate(
                size,
                4,
                manager.classic_limit->0,
            );
            &&& crate::heap_blocks::heap_blocks_apart(after)
            &&& after.heap_ptr <= bus.ram.len()
            &&& address != 0 ==> {
                &&& !manager.classic->0.sizes.dom().contains(address)
                &&& after.size_of(address) == Some(size)
                &&& size <= after.capacity_of(address)->0
                &&& forall|other: u32|
                    other != address ==> after.size_of(other) == manager.classic->0.size_of(other)
                        && after.capacity_of(other) == manager.classic->0.capacity_of(other)
            }
        }),
{
    let heap = manager.classic->0;
    let limit = manager.classic_limit->0;
    crate::heap_blocks::allocating_keeps_blocks_apart(heap, size, 4, limit);
    crate::heap_laws::allocated_block_is_new(heap, size, 4, limit);
    crate::heap_laws::planned_block_is_placed(heap, size, 4, limit);
    let (after, address) = heap.allocate(size, 4, limit);
    if address != 0 {
        let plan = heap.plan(size, 4, limit)->0;
        assert(after == heap.commit(plan));
        assert(!heap.buckets.dom().contains(address));
        crate::classic_heap::lemma_round_up(size as int, 4);
        assert forall|other: u32| other != address implies after.capacity_of(other)
            == heap.capacity_of(other) by {}
    }
}

/// A classic handle that was made for bytes holds them.
pub proof fn copied_classic_handle_holds_its_bytes(
    manager: ManagerModel,
    bus: BusModel,
    bytes: Seq<u8>,
)
    requires
        classic_heap_in_ram(manager, bus),
        bytes.len() <= u32::MAX,
    ensures
        ({
            let (after, written, result) = manager.copy_to_classic(bus, bytes);
            result matches Ok((handle, ptr)) ==> {
                &&& classic_heap_in_ram(after, written)
                &&& written.long(handle as int) == ptr
                &&& ptr != 0 && manager.record(handle) is None ==> after.handle_bytes(
                    written,
                    handle,
                ) == Ok::<Seq<u8>, i16>(bytes)
            }
        }),
{
    let (after, written, result) = manager.copy_to_classic(bus, bytes);
    if let Ok((handle, ptr)) = result {
        let size = bytes.len() as u32;
        let limit = manager.classic_limit->0;
        let (with_block, placed) = manager.classic->0.allocate(size, 4, limit);
        lemma_allocation_in_ram(manager, bus, size);
        let middle = manager.with_heap(with_block);
        lemma_allocation_in_ram(middle, bus, 4);
        let (with_master, master) = with_block.allocate(4, 4, limit);
        assert(master == handle && placed == ptr);
        assert(with_master.sizes.dom().contains(handle));
        assert(after.classic == Some(with_master));
        let linked = bus.store(handle as int, crate::guest_memory::word_bytes(ptr));
        crate::guest_memory::lemma_word_round_trip(ptr);
        assert(crate::heap_blocks::block_in_heap(
            with_master,
            handle,
            with_master.capacity_of(handle)->0,
        ));
        lemma_long_written(bus, handle as int, ptr);
        written_ram_is_read_back(
            bus,
            handle as int,
            crate::guest_memory::word_bytes(ptr),
            0,
        );
        if ptr != 0 {
            assert(with_master.sizes.dom().contains(ptr));
            assert(crate::heap_blocks::block_in_heap(
                with_master,
                ptr,
                with_master.capacity_of(ptr)->0,
            ));
            written_ram_is_read_back(linked, ptr as int, bytes, 0);
            lemma_run_apart_kept(linked, ptr as int, bytes, handle as int, 4);
        } else {
            assert(bytes =~= Seq::empty());
        }
    }
}

/// A classic handle with a block: its master pointer and its block are live.
pub open spec fn classic_handle(manager: ManagerModel, bus: BusModel, handle: u32) -> bool {
    &&& handle != 0
    &&& manager.record(handle) is None
    &&& manager.classic->0.size_of(handle) == Some(4u32)
    &&& bus.long(handle as int) != 0
    &&& bus.long(handle as int) != handle
    &&& manager.classic->0.size_of(bus.long(handle as int)) is Some
}

/// Resizing a classic block where it is keeps its leading bytes.
pub(crate) proof fn lemma_resized_in_place(
    manager: ManagerModel,
    bus: BusModel,
    handle: u32,
    new_size: u32,
)
    requires
        classic_heap_in_ram(manager, bus),
        classic_handle(manager, bus, handle),
        new_size <= u32::MAX - 3,
        crate::classic_heap::bucket_size(new_size as int) <= manager.classic->0.capacity_of(
            bus.long(handle as int),
        )->0,
    ensures
        ({
            let ptr = bus.long(handle as int);
            let old_size = manager.classic->0.size_of(ptr)->0;
            let kept = if old_size < new_size {
                old_size as nat
            } else {
                new_size as nat
            };
            let (after, written) = manager.resize_in_place(bus, ptr, new_size);
            &&& classic_heap_in_ram(after, written)
            &&& after.classic->0.size_of(ptr) == Some(new_size)
            &&& after.classic->0.size_of(handle) == Some(4u32)
            &&& written.long(handle as int) == ptr
            &&& run_kept(bus, written, ptr as int, kept)
        }),
{
    let heap = manager.classic->0;
    let ptr = bus.long(handle as int);
    let old_size = heap.size_of(ptr)->0;
    crate::heap_blocks::resizing_keeps_blocks_apart(heap, ptr, new_size);
    assert(heap.sizes.dom().contains(ptr));
    assert(heap.sizes.dom().contains(handle));
    assert(crate::heap_blocks::block_in_heap(heap, ptr, heap.capacity_of(ptr)->0));
    assert(crate::heap_blocks::block_in_heap(heap, handle, heap.capacity_of(handle)->0));
    assert(crate::heap_blocks::blocks_disjoint(
        ptr as int,
        heap.capacity_of(ptr)->0 as int,
        handle as int,
        heap.capacity_of(handle)->0 as int,
    ));
    crate::classic_heap::lemma_round_up(old_size as int, 4);
    if new_size < old_size {
        let tail = crate::guest_memory::zeros((old_size - new_size) as nat);
        assert((ptr + new_size) % 0x1_0000_0000 == ptr + new_size);
        written_ram_is_read_back(bus, ptr + new_size, tail, 0);
        lemma_run_apart_kept(bus, ptr + new_size, tail, ptr as int, new_size as nat);
        lemma_run_apart_kept(bus, ptr + new_size, tail, handle as int, 4);
    }
}

/// Moving a classic block keeps its leading bytes.
pub(crate) proof fn lemma_moved(manager: ManagerModel, bus: BusModel, handle: u32, new_size: u32)
    requires
        classic_heap_in_ram(manager, bus),
        classic_handle(manager, bus, handle),
    ensures
        ({
            let ptr = bus.long(handle as int);
            let old_size = manager.classic->0.size_of(ptr)->0;
            let kept = if old_size < new_size {
                old_size as nat
            } else {
                new_size as nat
            };
            let (after, written, moved) = manager.move_classic(bus, handle, ptr, new_size);
            &&& classic_heap_in_ram(after, written)
            &&& moved is None ==> {
                &&& written == bus && after.classic == manager.classic
                &&& manager.classic->0.allocate(new_size, 4, manager.classic_limit->0).1 == 0
            }
            &&& moved matches Some(new_ptr) ==> {
                &&& written.long(handle as int) == new_ptr
                &&& new_ptr == 0 ==> new_size == 0
                &&& new_ptr != 0 ==> {
                    &&& new_ptr != handle
                    &&& after.classic->0.size_of(new_ptr) == Some(new_size)
                    &&& after.classic->0.size_of(handle) == Some(4u32)
                    &&& after.classic->0.size_of(ptr) is None
                    &&& written.load(new_ptr as int, kept) == bus.load(ptr as int, kept)
                }
            }
        }),
{
    let heap = manager.classic->0;
    let ptr = bus.long(handle as int);
    let old_size = heap.size_of(ptr)->0;
    let kept = if old_size < new_size {
        old_size as nat
    } else {
        new_size as nat
    };
    let (allocated, new_ptr) = heap.allocate(new_size, 4, manager.classic_limit->0);
    lemma_allocation_in_ram(manager, bus, new_size);
    crate::heap_blocks::allocating_keeps_blocks_apart(
        heap,
        new_size,
        4,
        manager.classic_limit->0,
    );
    assert(heap.sizes.dom().contains(ptr));
    assert(heap.sizes.dom().contains(handle));
    assert(crate::heap_blocks::block_in_heap(heap, handle, heap.capacity_of(handle)->0));
    crate::guest_memory::lemma_word_round_trip(new_ptr);
    if new_ptr == 0 && new_size > 0 {
    } else {
        crate::heap_blocks::releasing_keeps_blocks_apart(allocated, ptr);
        let bytes = bus.load(ptr as int, kept);
        let copied = bus.store(new_ptr as int, bytes);
        if new_ptr != 0 {
            assert(allocated.sizes.dom().contains(new_ptr));
            assert(allocated.sizes.dom().contains(handle));
            assert(crate::heap_blocks::block_in_heap(
                allocated,
                new_ptr,
                allocated.capacity_of(new_ptr)->0,
            ));
            assert(crate::heap_blocks::blocks_disjoint(
                new_ptr as int,
                allocated.capacity_of(new_ptr)->0 as int,
                handle as int,
                allocated.capacity_of(handle)->0 as int,
            ));
            written_ram_is_read_back(bus, new_ptr as int, bytes, 0);
            lemma_run_apart_kept(
                copied,
                handle as int,
                crate::guest_memory::word_bytes(new_ptr),
                new_ptr as int,
                kept,
            );
        } else {
            assert(bytes =~= Seq::empty());
        }
        lemma_long_written(copied, handle as int, new_ptr);
        written_ram_is_read_back(
            copied,
            handle as int,
            crate::guest_memory::word_bytes(new_ptr),
            0,
        );
    }
}

/// A classic handle keeps its bytes, up to the lesser of both sizes, however
/// it is resized. A refused request leaves the heap and the bytes as they
/// were, and only a heap that has no block of the size refuses one.
pub proof fn resized_classic_handle_keeps_its_bytes(
    manager: ManagerModel,
    bus: BusModel,
    handle: u32,
    new_size: u32,
)
    requires
        classic_heap_in_ram(manager, bus),
        classic_handle(manager, bus, handle),
    ensures
        ({
            let old_size = manager.classic->0.size_of(bus.long(handle as int))->0;
            let kept = if old_size < new_size {
                old_size as nat
            } else {
                new_size as nat
            };
            let (after, written, error) = manager.set_handle_size(bus, handle, new_size);
            &&& classic_heap_in_ram(after, written)
            &&& error != 0 ==> {
                &&& written == bus && after.classic == manager.classic
                &&& manager.classic->0.allocate(new_size, 4, manager.classic_limit->0).1 == 0
            }
            &&& error == 0 && written.long(handle as int) == 0 ==> new_size == 0
            &&& error == 0 && written.long(handle as int) != 0 ==> {
                &&& classic_handle(after, written, handle)
                &&& after.handle_bytes(written, handle) is Ok
                &&& after.handle_bytes(written, handle)->Ok_0.len() == new_size
                &&& after.handle_bytes(written, handle)->Ok_0.take(kept as int)
                    == manager.handle_bytes(bus, handle)->Ok_0.take(kept as int)
            }
        }),
{
    let heap = manager.classic->0;
    let ptr = bus.long(handle as int);
    let old_size = heap.size_of(ptr)->0;
    let kept = if old_size < new_size {
        old_size as nat
    } else {
        new_size as nat
    };
    let (after, written, error) = manager.set_handle_size(bus, handle, new_size);
    assert(heap.sizes.dom().contains(ptr));
    if old_size == new_size || (new_size <= u32::MAX - 3 && crate::classic_heap::bucket_size(
        new_size as int,
    ) == crate::classic_heap::bucket_size(old_size as int)) {
        lemma_resized_in_place(manager, bus, handle, new_size);
    } else {
        lemma_moved(manager, bus, handle, new_size);
    }
    if error == 0 && written.long(handle as int) != 0 {
        let new_ptr = written.long(handle as int);
        assert(after.records == manager.records);
        assert(after.record(handle) is None);
        assert(written.load(new_ptr as int, new_size as nat).take(kept as int) =~= written.load(
            new_ptr as int,
            kept,
        ));
        assert(bus.load(ptr as int, old_size as nat).take(kept as int) =~= bus.load(
            ptr as int,
            kept,
        ));
    }
}

/// A classic handle whose bytes were replaced holds the new bytes. A refused
/// request leaves the heap and the bytes as they were, and only a heap that has
/// no block of the size refuses one.
pub proof fn replaced_classic_handle_holds_its_bytes(
    manager: ManagerModel,
    bus: BusModel,
    handle: u32,
    bytes: Seq<u8>,
)
    requires
        classic_heap_in_ram(manager, bus),
        classic_handle(manager, bus, handle),
        bytes.len() <= u32::MAX,
    ensures
        ({
            let (after, written, error) = manager.replace_handle_bytes(bus, handle, bytes);
            &&& classic_heap_in_ram(after, written)
            &&& error != 0 ==> {
                &&& written == bus && after.classic == manager.classic
                &&& manager.classic->0.allocate(bytes.len() as u32, 4, manager.classic_limit->0).1
                    == 0
            }
            &&& error == 0 && written.long(handle as int) == 0 ==> bytes.len() == 0
            &&& error == 0 && written.long(handle as int) != 0 ==> classic_handle(
                after,
                written,
                handle,
            ) && after.handle_bytes(written, handle) == Ok::<Seq<u8>, i16>(bytes)
        }),
{
    let size = bytes.len() as u32;
    let (sized, ready, error) = manager.set_handle_size(bus, handle, size);
    resized_classic_handle_keeps_its_bytes(manager, bus, handle, size);
    if error == 0 {
        let ptr = ready.long(handle as int);
        let written = ready.store(ptr as int, bytes);
        if ptr == 0 {
            assert(bytes =~= Seq::empty());
        } else {
            let heap = sized.classic->0;
            assert(heap.sizes.dom().contains(ptr));
            assert(heap.sizes.dom().contains(handle));
            assert(heap.size_of(ptr) == Some(size));
            assert(crate::heap_blocks::block_in_heap(heap, ptr, heap.capacity_of(ptr)->0));
            assert(crate::heap_blocks::block_in_heap(heap, handle, heap.capacity_of(handle)->0));
            crate::classic_heap::lemma_round_up(size as int, 4);
            assert(crate::heap_blocks::blocks_disjoint(
                ptr as int,
                heap.capacity_of(ptr)->0 as int,
                handle as int,
                heap.capacity_of(handle)->0 as int,
            ));
            written_ram_is_read_back(ready, ptr as int, bytes, 0);
            lemma_run_apart_kept(ready, ptr as int, bytes, handle as int, 4);
        }
    }
}

/// A classic handle that was given another block leads to it and holds the
/// pattern that the block was filled with.
pub(crate) proof fn lemma_reallocated_classic(
    manager: ManagerModel,
    bus: BusModel,
    handle: u32,
    size: u32,
)
    requires
        classic_heap_in_ram(manager, bus),
        manager.record(handle) is None,
        bus.long(handle as int) != handle,
        bus.long(handle as int) == 0 || manager.classic->0.size_of(bus.long(handle as int)) is Some,
    ensures
        ({
            let (after, written, result) = manager.reallocate(bus, handle, size);
            &&& result is Ok ==> result->Ok_0.0 == bus.long(handle as int)
            &&& result is Ok && size > 0 ==> {
                &&& written.long(handle as int) == result->Ok_0.1
                &&& after.handle_bytes(written, handle) == Ok::<Seq<u8>, i16>(
                    crate::bus::repeated(0xA5, size as nat),
                )
            }
        }),
{
    let (after, written, result) = manager.reallocate(bus, handle, size);
    let heap = manager.classic->0;
    if result is Ok {
        let fill = crate::bus::repeated(0xA5, size as nat);
        let (allocated, new_ptr) = heap.allocate(size, 4, manager.classic_limit->0);
        let filled = bus.store(new_ptr as int, fill);
        lemma_allocation_in_ram(manager, bus, size);
        assert(heap.sizes.dom().contains(handle));
        assert(crate::heap_blocks::block_in_heap(heap, handle, heap.capacity_of(handle)->0));
        crate::guest_memory::lemma_word_round_trip(new_ptr);
        if new_ptr == 0 {
            assert(fill =~= Seq::empty());
        } else {
            assert(allocated.sizes.dom().contains(new_ptr));
            assert(allocated.sizes.dom().contains(handle));
            assert(crate::heap_blocks::block_in_heap(
                allocated,
                new_ptr,
                allocated.capacity_of(new_ptr)->0,
            ));
            assert(crate::heap_blocks::blocks_disjoint(
                new_ptr as int,
                allocated.capacity_of(new_ptr)->0 as int,
                handle as int,
                allocated.capacity_of(handle)->0 as int,
            ));
            written_ram_is_read_back(bus, new_ptr as int, fill, 0);
            lemma_run_apart_kept(bus, new_ptr as int, fill, handle as int, 4);
            let old_ptr = bus.long(handle as int);
            assert(filled.long(handle as int) == old_ptr);
            lemma_long_written(filled, handle as int, new_ptr);
            lemma_run_apart_kept(
                filled,
                handle as int,
                crate::guest_memory::word_bytes(new_ptr),
                new_ptr as int,
                size as nat,
            );
            assert(old_ptr != new_ptr);
        }
    }
}

} // verus!
