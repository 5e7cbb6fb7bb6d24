//! How guest memory spells numbers, and which byte of which memory an address
//! reaches.

use crate::bus::BusModel;
use crate::guest_memory::SpaceModel;
use vstd::prelude::*;

verus! {

/// A number is spelled with its most significant byte first, and four bytes
/// spell the number that they are the digits of.
pub proof fn numbers_are_spelled_from_the_top(value: u32, a: u8, b: u8, c: u8, d: u8)
    ensures
        ({
            let bytes = crate::guest_memory::word_bytes(value);
            &&& bytes.len() == 4
            &&& bytes[0] * 0x100_0000 + bytes[1] * 0x1_0000 + bytes[2] * 0x100 + bytes[3] == value
            &&& crate::guest_memory::big_endian(seq![a, b, c, d]) == a * 0x100_0000 + b * 0x1_0000
                + c * 0x100 + d
        }),
{
    let bytes = crate::guest_memory::word_bytes(value);
    assert(bytes[0] == value / 0x100_0000);
    assert(bytes[1] == value / 0x1_0000 % 0x100);
    assert(bytes[2] == value / 0x100 % 0x100);
    assert(bytes[3] == value % 0x100);
}

/// The word at an address of a space is spelled by the four bytes from there
/// on; it can be read exactly where all four are mapped.
pub proof fn word_is_spelled_by_its_bytes(space: SpaceModel, address: int)
    ensures
        space.word(address) is Some <==> space.bytes.dom().contains(address)
            && space.bytes.dom().contains(address + 1) && space.bytes.dom().contains(address + 2)
            && space.bytes.dom().contains(address + 3),
        space.word(address) matches Some(word) ==> word == space.bytes[address] * 0x100_0000
            + space.bytes[address + 1] * 0x1_0000 + space.bytes[address + 2] * 0x100
            + space.bytes[address + 3],
{
    let bytes = space.load(address, 4);
    assert(bytes[0] == space.bytes[address]);
    assert(bytes[1] == space.bytes[address + 1]);
    assert(bytes[2] == space.bytes[address + 2]);
    assert(bytes[3] == space.bytes[address + 3]);
    if space.bytes.dom().contains(address) && space.bytes.dom().contains(address + 1)
        && space.bytes.dom().contains(address + 2) && space.bytes.dom().contains(address + 3) {
        assert forall|a: int| address <= a < address + 4 implies #[trigger] space.bytes.dom().contains(
            a,
        ) by {
            assert(a == address || a == address + 1 || a == address + 2 || a == address + 3);
        }
    }
}

/// The word at an address of a bus is spelled by the four bytes from there on,
/// around the end of the address range.
pub proof fn long_is_spelled_by_its_bytes(bus: BusModel, address: int)
    ensures
        bus.long(address) == bus.byte(address % 0x1_0000_0000) * 0x100_0000 + bus.byte(
            (address + 1) % 0x1_0000_0000,
        ) * 0x1_0000 + bus.byte((address + 2) % 0x1_0000_0000) * 0x100 + bus.byte(
            (address + 3) % 0x1_0000_0000,
        ),
{
    let bytes = bus.load(address, 4);
    assert(bytes[0] == bus.byte(address % 0x1_0000_0000));
    assert(bytes[1] == bus.byte((address + 1) % 0x1_0000_0000));
    assert(bytes[2] == bus.byte((address + 2) % 0x1_0000_0000));
    assert(bytes[3] == bus.byte((address + 3) % 0x1_0000_0000));
}

/// A bus reaches its RAM first, then the attached address space; what neither
/// maps reads as zero.
pub proof fn bus_reaches_ram_first(bus: BusModel, address: int)
    requires
        0 <= address,
    ensures
        address < bus.ram.len() ==> bus.byte(address) == bus.ram[address],
        address >= bus.ram.len() && bus.foreign is Some
            && bus.foreign->0.bytes.dom().contains(address) ==> bus.byte(address)
            == bus.foreign->0.bytes[address],
        address >= bus.ram.len() && (bus.foreign is None
            || !bus.foreign->0.bytes.dom().contains(address)) ==> bus.byte(address) == 0,
{
}

/// A byte that a bus writes is read back where RAM or a writable byte of the
/// attached space is at the address; elsewhere the write is lost. No other
/// address changes.
pub proof fn written_byte_is_read_back(bus: BusModel, address: int, value: u8, other: int)
    requires
        0 <= address,
        0 <= other,
    ensures
        ({
            let after = bus.set_byte(address, value);
            let lands = address < bus.ram.len() || (bus.foreign is Some
                && bus.foreign->0.writable.contains(address));
            &&& lands ==> after.byte(address) == value
            &&& !lands ==> after == bus
            &&& other != address ==> after.byte(other) == bus.byte(other)
            &&& after.ram.len() == bus.ram.len()
        }),
{
    if let Some(space) = bus.foreign {
        crate::guest_memory::written_bytes_are_read_back(space, address, seq![value], other);
        assert(space.store(address, seq![value]).bytes[address] == seq![value][0]);
    }
}

/// A region that is mapped shows its bytes wherever nothing was mapped before,
/// and changes nothing else. Such an address accepts writes exactly where the
/// region does.
pub proof fn mapped_region_shows_where_nothing_was(
    space: SpaceModel,
    base: int,
    data: Seq<u8>,
    writable: bool,
    address: int,
)
    requires
        !space.bytes.dom().contains(address) ==> !space.writable.contains(address),
    ensures
        ({
            let after = space.map_region(base, data, writable);
            let inside = base <= address < base + data.len() && address
                < crate::guest_memory::ADDRESS_LIMIT;
            &&& space.bytes.dom().contains(address) ==> after.bytes.dom().contains(address)
                && after.bytes[address] == space.bytes[address] && after.writable.contains(address)
                == space.writable.contains(address)
            &&& !space.bytes.dom().contains(address) && inside ==> after.bytes.dom().contains(
                address,
            ) && after.bytes[address] == data[address - base] && after.writable.contains(address)
                == writable
            &&& !space.bytes.dom().contains(address) && !inside ==> !after.bytes.dom().contains(
                address,
            )
            &&& after.exclusions == space.exclusions && after.windows == space.windows
        }),
{
}

/// A run of writes that may be cut short writes what comes before the first
/// address that refuses it, and reports whether there was none.
pub proof fn run_stops_at_the_first_refusal(
    space: SpaceModel,
    address: int,
    data: Seq<u8>,
    other: int,
)
    ensures
        ({
            let (after, complete) = crate::guest_memory::write_run(space, address, data);
            &&& complete <==> forall|a: int|
                address <= a < address + data.len() ==> #[trigger] space.writable.contains(a)
            &&& address <= other < address + data.len() && (forall|a: int|
                address <= a <= other ==> #[trigger] space.writable.contains(a))
                ==> after.bytes.dom().contains(other) && after.bytes[other] == data[other - address]
            &&& (!(address <= other < address + data.len()) || !(forall|a: int|
                address <= a <= other ==> #[trigger] space.writable.contains(a))) ==> {
                &&& after.bytes.dom().contains(other) == space.bytes.dom().contains(other)
                &&& space.bytes.dom().contains(other) ==> after.bytes[other] == space.bytes[other]
            }
        }),
{
    let end = address + data.len();
    lemma_run(space, address, end);
    let stop = crate::guest_memory::writable_run(space, address, end);
    assert(data.take(stop - address).len() == stop - address);
    if stop < end {
        assert(!space.writable.contains(stop));
    }
}

proof fn lemma_run(space: SpaceModel, from: int, to: int)
    requires
        from <= to,
    ensures
        ({
            let stop = crate::guest_memory::writable_run(space, from, to);
            &&& from <= stop <= to
            &&& forall|a: int| from <= a < stop ==> #[trigger] space.writable.contains(a)
            &&& stop < to ==> !space.writable.contains(stop)
        }),
    decreases to - from,
{
    if from < to && space.writable.contains(from) {
        lemma_run(space, from + 1, to);
        let stop = crate::guest_memory::writable_run(space, from, to);
        assert forall|a: int| from <= a < stop implies #[trigger] space.writable.contains(a) by {
            if a > from {
                assert(from + 1 <= a);
            }
        }
    }
}

} // verus!
