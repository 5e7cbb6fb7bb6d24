//! The memory that address spaces and buses share is one memory.

use crate::bus::{BusModel, MacMemoryBus};
use crate::cells::SharedCells;
use crate::guest_memory::{SpaceModel, WindowModel};
use crate::process_context::ProcessMemoryRegion;
use crate::shared_memory::SharedRamRegion;
use vstd::prelude::*;

verus! {

/// A run of addresses that a space maps through one of its windows.
pub open spec fn in_window(space: SpaceModel, index: int, address: int, len: int) -> bool {
    &&& 0 <= index < space.windows.len()
    &&& forall|a: int| address <= a < address + len ==> !#[trigger] space.bytes.dom().contains(a)
    &&& forall|a: int|
        address <= a < address + len ==> #[trigger] crate::shared_memory::window_at(
            space.windows,
            a,
        ) == index
}

/// A bus whose RAM is the one that a window shows.
pub open spec fn shown_by(bus: BusModel, rams: Seq<Seq<u8>>, window: WindowModel) -> bool {
    bus.ram == rams[window.bus] && bus.ram.len() <= 0x1_0000_0000
}

/// To read through a window is to read on the bus.
pub proof fn window_reads_the_bus(
    space: SpaceModel,
    rams: Seq<Seq<u8>>,
    index: int,
    bus: BusModel,
    address: int,
    len: nat,
)
    requires
        crate::shared_memory::windows_fit(space.windows, rams),
        in_window(space, index, address, len as int),
        shown_by(bus, rams, space.windows[index]),
    ensures
        space.seen(rams).mapped(address, len as int),
        space.seen(rams).load(address, len) == bus.load(space.windows[index].place(address), len),
{
    let window = space.windows[index];
    assert(window.fits(rams));
    assert forall|a: int| address <= a < address + len implies #[trigger] space.seen(
        rams,
    ).bytes.dom().contains(a) && space.seen(rams).bytes[a] == bus.byte(window.place(a) % 0x1_0000_0000) by {
        assert(crate::shared_memory::window_at(space.windows, a) == index);
        crate::shared_memory::lemma_seen(space, space.windows, rams, a);
        crate::shared_memory::lemma_window_at(space.windows, a);
        assert(window.place(a) % 0x1_0000_0000 == window.place(a));
    }
    assert forall|i: int| 0 <= i < len implies space.seen(rams).load(address, len)[i] == bus.load(
        window.place(address),
        len,
    )[i] by {
        assert(space.seen(rams).bytes.dom().contains(address + i));
        assert(window.place(address) + i == window.place(address + i));
    }
    assert(space.seen(rams).load(address, len) =~= bus.load(window.place(address), len));
}

/// To write through a window is to write on the bus: the run is accepted, the
/// RAM is that of the bus after the same run was written to it, and nothing
/// else changes.
pub proof fn window_writes_the_bus(
    space: SpaceModel,
    rams: Seq<Seq<u8>>,
    index: int,
    bus: BusModel,
    address: int,
    data: Seq<u8>,
)
    requires
        crate::shared_memory::windows_fit(space.windows, rams),
        in_window(space, index, address, data.len() as int),
        shown_by(bus, rams, space.windows[index]),
    ensures
        space.seen(rams).accepts(address, data.len() as int),
        space.written_all(rams, address, data) == (
            space,
            rams.update(
                space.windows[index].bus,
                bus.store(space.windows[index].place(address), data).ram,
            ),
        ),
    decreases data.len(),
{
    let window = space.windows[index];
    assert(window.fits(rams));
    assert forall|a: int| address <= a < address + data.len() implies #[trigger] space.seen(
        rams,
    ).writable.contains(a) by {
        assert(crate::shared_memory::window_at(space.windows, a) == index);
        crate::shared_memory::lemma_seen(space, space.windows, rams, a);
    }
    if data.len() == 0 {
        assert(rams.update(window.bus, bus.ram) =~= rams);
    } else {
        let last = address + data.len() - 1;
        assert(crate::shared_memory::window_at(space.windows, last) == index);
        assert(crate::shared_memory::window_at(space.windows, address) == index);
        crate::shared_memory::lemma_window_at(space.windows, last);
        crate::shared_memory::lemma_window_at(space.windows, address);
        assert(data.drop_last().len() == data.len() - 1);
        window_writes_the_bus(space, rams, index, bus, address, data.drop_last());
        let place = window.place(address);
        crate::bus_laws::lemma_store_in_ram(bus, place, data.drop_last());
        crate::bus_laws::lemma_store_in_ram(bus, place, data);
        let before = bus.store(place, data.drop_last()).ram;
        let middle = rams.update(window.bus, before);
        assert((place + data.len() - 1) % 0x1_0000_0000 == window.place(last));
        assert(bus.store(place, data).ram == before.update(window.place(last), data.last()));
        assert(middle.update(window.bus, before.update(window.place(last), data.last()))
            =~= rams.update(window.bus, bus.store(place, data).ram));
    }
}

/// A word written through a window is read back on the bus and through the
/// window.
pub proof fn word_written_through_a_window_is_read_back(
    space: SpaceModel,
    rams: Seq<Seq<u8>>,
    index: int,
    bus: BusModel,
    address: int,
    value: u32,
)
    requires
        crate::shared_memory::windows_fit(space.windows, rams),
        in_window(space, index, address, 4),
        shown_by(bus, rams, space.windows[index]),
    ensures
        ({
            let (after, written) = space.written_all(
                rams,
                address,
                crate::guest_memory::word_bytes(value),
            );
            let window = space.windows[index];
            &&& (BusModel { ram: written[window.bus], ..bus }).long(window.place(address)) == value
            &&& after.seen(written).word(address) == Some(value)
        }),
{
    let window = space.windows[index];
    let data = crate::guest_memory::word_bytes(value);
    let place = window.place(address);
    crate::guest_memory::lemma_word_round_trip(value);
    assert(window.fits(rams));
    assert(crate::shared_memory::window_at(space.windows, address) == index);
    assert(crate::shared_memory::window_at(space.windows, address + 3) == index);
    crate::shared_memory::lemma_window_at(space.windows, address);
    crate::shared_memory::lemma_window_at(space.windows, address + 3);
    window_writes_the_bus(space, rams, index, bus, address, data);
    crate::bus_laws::lemma_store_in_ram(bus, place, data);
    crate::bus_laws::written_ram_is_read_back(bus, place, data, place);
    let stored = bus.store(place, data);
    let written = rams.update(window.bus, stored.ram);
    assert((BusModel { ram: written[window.bus], ..bus }) =~= stored);
    assert forall|k: int| 0 <= k < space.windows.len() implies (#[trigger] space.windows[k]).fits(
        written,
    ) by {
        assert(space.windows[k].fits(rams));
    }
    window_reads_the_bus(space, written, index, stored, address, 4);
}

/// Memory that is attached to a space is reached through it wherever the space
/// had mapped nothing, and what the space had mapped it keeps.
pub proof fn attached_memory_is_mapped(
    space: SpaceModel,
    rams: Seq<Seq<u8>>,
    window: WindowModel,
    address: int,
    len: int,
)
    requires
        crate::shared_memory::windows_fit(space.windows, rams),
        window.fits(rams),
        forall|a: int|
            address <= a < address + len ==> window.holds(a)
                && !#[trigger] space.seen(rams).bytes.dom().contains(a),
    ensures
        ({
            let after = SpaceModel { windows: space.windows.push(window), ..space };
            &&& crate::shared_memory::windows_fit(after.windows, rams)
            &&& in_window(after, space.windows.len() as int, address, len)
            &&& forall|a: int| #[trigger]
                space.seen(rams).bytes.dom().contains(a) ==> after.seen(rams).bytes.dom().contains(a)
                    && after.seen(rams).bytes[a] == space.seen(rams).bytes[a]
        }),
{
    let after = SpaceModel { windows: space.windows.push(window), ..space };
    assert(after.windows.drop_last() =~= space.windows);
    assert forall|k: int| 0 <= k < after.windows.len() implies (#[trigger] after.windows[k]).fits(
        rams,
    ) by {
        if k < space.windows.len() {
            assert(space.windows[k].fits(rams));
        }
    }
    assert forall|a: int| address <= a < address + len implies !#[trigger] after.bytes.dom().contains(
        a,
    ) by {
        assert(!space.seen(rams).bytes.dom().contains(a));
        crate::shared_memory::lemma_seen(space, space.windows, rams, a);
    }
    assert forall|a: int| address <= a < address + len implies #[trigger] crate::shared_memory::window_at(
        after.windows,
        a,
    ) == space.windows.len() by {
        assert(!space.seen(rams).bytes.dom().contains(a));
        crate::shared_memory::lemma_seen(space, space.windows, rams, a);
    }
    assert forall|a: int| #[trigger]
        space.seen(rams).bytes.dom().contains(a) implies after.seen(rams).bytes.dom().contains(a)
        && after.seen(rams).bytes[a] == space.seen(rams).bytes[a] by {
        crate::shared_memory::lemma_seen(space, space.windows, rams, a);
        crate::shared_memory::lemma_seen(after, after.windows, rams, a);
        crate::shared_memory::lemma_window_at(space.windows, a);
    }
}

/// Where the process's memory and the attached range lie in the RAM of buses,
/// they do so after the attachment, and the adapter's space reaches everything
/// that it maps.
pub proof fn attached_adapter_reaches_its_memory(
    known: Seq<ProcessMemoryRegion>,
    base: u32,
    bytes: SharedRamRegion,
    space: SpaceModel,
    buses: &SharedCells<MacMemoryBus>,
)
    requires
        crate::process_context::ranges_reach(known, buses),
        bytes.valid(buses),
        crate::shared_memory::windows_fit(space.windows, crate::shared_memory::rams(buses@)),
    ensures
        ({
            let index = crate::process_context::range_position(known, base, bytes.len);
            let owned = if index < known.len() {
                known
            } else {
                known.push(ProcessMemoryRegion { base, bytes })
            };
            &&& 0 <= index < owned.len()
            &&& owned[index].base == base && owned[index].bytes.len == bytes.len
            &&& crate::process_context::ranges_reach(owned, buses)
            &&& crate::shared_memory::windows_fit(space.windows.push(owned[index].window()), crate::shared_memory::rams(buses@))
        }),
{
    let index = crate::process_context::range_position(known, base, bytes.len);
    lemma_range_position_bounds(known, base, bytes.len);
    let owned = if index < known.len() {
        known
    } else {
        known.push(ProcessMemoryRegion { base, bytes })
    };
    assert forall|i: int| 0 <= i < owned.len() implies (#[trigger] owned[i]).bytes.valid(buses) by {
        if i < known.len() {
            assert(known[i].bytes.valid(buses));
        }
    }
    assert(owned[index].bytes.valid(buses));
    let windows = space.windows.push(owned[index].window());
    assert forall|k: int| 0 <= k < windows.len() implies (#[trigger] windows[k]).fits(
        crate::shared_memory::rams(buses@),
    ) by {
        if k < space.windows.len() {
            assert(space.windows[k].fits(crate::shared_memory::rams(buses@)));
        }
    }
}

proof fn lemma_range_position_bounds(known: Seq<ProcessMemoryRegion>, base: u32, len: usize)
    ensures
        0 <= crate::process_context::range_position(known, base, len) <= known.len(),
        crate::process_context::range_position(known, base, len) < known.len() ==> known[crate::process_context::range_position(
            known,
            base,
            len,
        )].base == base && known[crate::process_context::range_position(known, base, len)].bytes.len == len,
    decreases known.len(),
{
    if known.len() > 0 && !(known[0].base == base && known[0].bytes.len == len) {
        lemma_range_position_bounds(known.skip(1), base, len);
    }
}

/// A detached copy of a space reads what the space read when it was made,
/// whatever the RAMs hold by then, and its writes reach no RAM.
pub proof fn detached_space_shares_nothing(
    space: SpaceModel,
    rams: Seq<Seq<u8>>,
    later: Seq<Seq<u8>>,
    address: int,
    data: Seq<u8>,
)
    requires
        crate::shared_memory::windows_fit(space.windows, rams),
    ensures
        ({
            let copy = SpaceModel { windows: Seq::empty(), ..space.seen(rams) };
            &&& copy.seen(later).bytes == space.seen(rams).bytes
            &&& copy.seen(later).writable == space.seen(rams).writable
            &&& (forall|a: int|
                address <= a < address + data.len() ==> #[trigger] copy.bytes.dom().contains(a)) ==> {
                &&& copy.written_all(later, address, data).1 == later
                &&& copy.written_all(later, address, data).0.windows.len() == 0
            }
        }),
    decreases data.len(),
{
    let copy = SpaceModel { windows: Seq::empty(), ..space.seen(rams) };
    if data.len() > 0 {
        detached_space_shares_nothing(space, rams, later, address, data.drop_last());
        let last = address + data.len() - 1;
        if copy.bytes.dom().contains(last) {
            lemma_written_keeps_mapped(copy, later, address, data.drop_last(), last);
        }
    }
}

proof fn lemma_written_keeps_mapped(
    space: SpaceModel,
    rams: Seq<Seq<u8>>,
    address: int,
    data: Seq<u8>,
    other: int,
)
    requires
        space.bytes.dom().contains(other),
    ensures
        space.written_all(rams, address, data).0.bytes.dom().contains(other),
    decreases data.len(),
{
    if data.len() > 0 {
        lemma_written_keeps_mapped(space, rams, address, data.drop_last(), other);
    }
}

} // verus!
