//! Guest memory as the Memory Manager sees it: sparse native address spaces
//! and the byte order of the words stored in them.

use crate::cells::CellDefault;
use crate::shared_memory::SharedRamRegion;
use vstd::prelude::*;

verus! {

/// One past the last guest address.
pub const ADDRESS_LIMIT: u64 = 0x1_0000_0000;

/// The number that four bytes spell, most significant byte first.
pub open spec fn big_endian(bytes: Seq<u8>) -> int {
    bytes[0] * 0x100_0000 + bytes[1] * 0x1_0000 + bytes[2] * 0x100 + bytes[3]
}

/// The four bytes that spell a number, most significant byte first.
pub open spec fn word_bytes(value: u32) -> Seq<u8> {
    seq![
        (value / 0x100_0000) as u8,
        (value / 0x1_0000 % 0x100) as u8,
        (value / 0x100 % 0x100) as u8,
        (value % 0x100) as u8,
    ]
}

/// Spelling a number and reading it back gives the number.
pub proof fn lemma_word_round_trip(value: u32)
    ensures
        word_bytes(value).len() == 4,
        big_endian(word_bytes(value)) == value,
{
}

pub(crate) fn to_word_bytes(value: u32) -> (bytes: Vec<u8>)
    ensures
        bytes@ == word_bytes(value),
{
    let mut bytes: Vec<u8> = Vec::new();
    bytes.push((value / 0x100_0000) as u8);
    bytes.push((value / 0x1_0000 % 0x100) as u8);
    bytes.push((value / 0x100 % 0x100) as u8);
    bytes.push((value % 0x100) as u8);
    assert(bytes@ =~= word_bytes(value));
    bytes
}

pub(crate) fn from_word_bytes(b0: u8, b1: u8, b2: u8, b3: u8) -> (value: u32)
    ensures
        value == big_endian(seq![b0, b1, b2, b3]),
{
    (b0 as u32) * 0x100_0000 + (b1 as u32) * 0x1_0000 + (b2 as u32) * 0x100 + (b3 as u32)
}

/// `count` zero bytes.
pub open spec fn zeros(count: nat) -> Seq<u8> {
    Seq::new(count, |i: int| 0u8)
}

/// What a native address space holds.
#[verifier::ext_equal]
pub struct SpaceModel {
    /// The byte at each address that the space maps of its own.
    pub bytes: Map<int, u8>,
    /// Those of these addresses that accept writes.
    pub writable: Set<int>,
    /// Address ranges that heap allocation must step over.
    pub exclusions: Seq<(u32, u32)>,
    /// Ranges of buses' RAM that the space maps besides.
    pub windows: Seq<WindowModel>,
}

/// A range of a bus's RAM at an address of a space.
pub struct WindowModel {
    pub base: int,
    /// The bus.
    pub bus: int,
    /// Where the range starts in the bus's RAM.
    pub start: int,
    pub len: int,
}

impl SpaceModel {
    /// Every address of the range is mapped.
    pub open spec fn mapped(self, address: int, len: int) -> bool {
        forall|a: int| address <= a < address + len ==> #[trigger] self.bytes.dom().contains(a)
    }

    /// Every address of the range accepts writes.
    pub open spec fn accepts(self, address: int, len: int) -> bool {
        forall|a: int| address <= a < address + len ==> #[trigger] self.writable.contains(a)
    }

    /// The bytes of a range.
    pub open spec fn load(self, address: int, len: nat) -> Seq<u8> {
        Seq::new(len, |i: int| self.bytes[address + i])
    }

    /// The word at an address.
    pub open spec fn word(self, address: int) -> Option<u32> {
        if self.mapped(address, 4) {
            Some(big_endian(self.load(address, 4)) as u32)
        } else {
            None
        }
    }

    /// The space after `data` was written at `address`.
    pub open spec fn store(self, address: int, data: Seq<u8>) -> SpaceModel {
        SpaceModel {
            bytes: self.bytes.union_prefer_right(
                Map::new(
                    |a: int| address <= a < address + data.len(),
                    |a: int| data[a - address],
                ),
            ),
            ..self
        }
    }

    /// The space after a region was mapped; what was mapped before stays.
    pub open spec fn map_region(self, base: int, data: Seq<u8>, writable: bool) -> SpaceModel {
        SpaceModel {
            bytes: Map::new(
                |a: int| base <= a < base + data.len() && a < ADDRESS_LIMIT,
                |a: int| data[a - base],
            ).union_prefer_right(self.bytes),
            writable: if writable {
                self.writable.union(
                    Set::new(
                        |a: int|
                            base <= a < base + data.len() && a < ADDRESS_LIMIT
                                && !self.bytes.dom().contains(a),
                    ),
                )
            } else {
                self.writable
            },
            ..self
        }
    }
}

/// What was written is read back, and every other address keeps its byte.
pub proof fn written_bytes_are_read_back(space: SpaceModel, address: int, data: Seq<u8>, other: int)
    ensures
        space.store(address, data).mapped(address, data.len() as int),
        space.store(address, data).load(address, data.len()) == data,
        !(address <= other < address + data.len()) ==> {
            &&& space.store(address, data).bytes.dom().contains(other)
                == space.bytes.dom().contains(other)
            &&& space.bytes.dom().contains(other) ==> space.store(address, data).bytes[other]
                == space.bytes[other]
        },
{
    assert(space.store(address, data).load(address, data.len()) =~= data);
}

/// A word that was written is read back.
pub proof fn written_word_is_read_back(space: SpaceModel, address: int, value: u32)
    ensures
        space.store(address, word_bytes(value)).word(address) == Some(value),
{
    lemma_word_round_trip(value);
    written_bytes_are_read_back(space, address, word_bytes(value), address);
}

/// How far a run of writes that starts at `from` gets before it is refused.
pub open spec fn writable_run(space: SpaceModel, from: int, to: int) -> int
    decreases to - from,
{
    if from >= to || !space.writable.contains(from) {
        from
    } else {
        writable_run(space, from + 1, to)
    }
}

pub proof fn lemma_writable_run(space: SpaceModel, from: int, to: int, stop: int)
    requires
        from <= stop <= to,
        space.accepts(from, stop - from),
        stop < to ==> !space.writable.contains(stop),
    ensures
        writable_run(space, from, to) == stop,
    decreases to - from,
{
    if from < stop {
        assert(space.writable.contains(from));
        assert forall|a: int| from + 1 <= a < from + 1 + (stop - from - 1) implies
            #[trigger] space.writable.contains(a) by {}
        lemma_writable_run(space, from + 1, to, stop);
    }
}

/// The space after bytes were written one by one until a write was refused,
/// and whether all were written.
pub open spec fn write_run(space: SpaceModel, address: int, data: Seq<u8>) -> (SpaceModel, bool) {
    let stop = writable_run(space, address, address + data.len());
    (space.store(address, data.take(stop - address)), stop == address + data.len())
}

/// Where the first excluded range that meets the block ends.
pub open spec fn overlap_end(exclusions: Seq<(u32, u32)>, address: int, len: int) -> Option<u32>
    decreases exclusions.len(),
{
    if exclusions.len() == 0 {
        None
    } else if address < exclusions[0].1 && exclusions[0].0 < address + len {
        Some(exclusions[0].1)
    } else {
        overlap_end(exclusions.drop_first(), address, len)
    }
}

pub proof fn lemma_overlap_end_after(exclusions: Seq<(u32, u32)>, address: int, len: int)
    ensures
        overlap_end(exclusions, address, len) matches Some(end) ==> address < end,
    decreases exclusions.len(),
{
    if exclusions.len() > 0 {
        lemma_overlap_end_after(exclusions.drop_first(), address, len);
    }
}

pub(crate) fn find_overlap_end(exclusions: &Vec<(u32, u32)>, address: u32, len: u32) -> (end:
    Option<u32>)
    ensures
        end == overlap_end(exclusions@, address as int, len as int),
{
    let mut i: usize = 0;
    assert(exclusions@.skip(0) =~= exclusions@);
    while i < exclusions.len()
        invariant
            i <= exclusions@.len(),
            overlap_end(exclusions@, address as int, len as int) == overlap_end(
                exclusions@.skip(i as int),
                address as int,
                len as int,
            ),
        decreases exclusions@.len() - i,
    {
        let (start, end) = exclusions[i];
        assert(exclusions@.skip(i as int)[0] == exclusions@[i as int]);
        if address < end && (start as u64) < address as u64 + len as u64 {
            return Some(end);
        }
        assert(exclusions@.skip(i as int).drop_first() =~= exclusions@.skip(i + 1));
        i += 1;
    }
    None
}

/// One contiguous mapping.
pub struct GuestRegion {
    pub base: u32,
    pub bytes: Vec<u8>,
    pub writable: bool,
}

impl GuestRegion {
    pub open spec fn holds(&self, address: int) -> bool {
        self.base <= address < self.base + self.bytes@.len() && address < ADDRESS_LIMIT
    }
}

/// The first region that holds an address, or a negative number.
pub open spec fn region_at(regions: Seq<GuestRegion>, address: int) -> int
    decreases regions.len(),
{
    if regions.len() == 0 {
        -1
    } else {
        let before = region_at(regions.drop_last(), address);
        if before >= 0 {
            before
        } else if regions.last().holds(address) {
            regions.len() - 1
        } else {
            -1
        }
    }
}

proof fn lemma_region_at(regions: Seq<GuestRegion>, address: int)
    ensures
        region_at(regions, address) < regions.len(),
        region_at(regions, address) >= 0 ==> regions[region_at(regions, address)].holds(address),
        forall|i: int|
            0 <= i < regions.len() && (region_at(regions, address) < 0 || i < region_at(
                regions,
                address,
            )) ==> !(#[trigger] regions[i]).holds(address),
    decreases regions.len(),
{
    if regions.len() > 0 {
        let rest = regions.drop_last();
        lemma_region_at(rest, address);
        assert forall|i: int|
            0 <= i < regions.len() && (region_at(regions, address) < 0 || i < region_at(
                regions,
                address,
            )) implies !(#[trigger] regions[i]).holds(address) by {
            if i < rest.len() {
                assert(rest[i] == regions[i]);
            }
        }
    }
}

proof fn lemma_region_at_unique(regions: Seq<GuestRegion>, address: int, index: int)
    requires
        0 <= index < regions.len(),
        regions[index].holds(address),
        forall|i: int| 0 <= i < index ==> !(#[trigger] regions[i]).holds(address),
    ensures
        region_at(regions, address) == index,
{
    lemma_region_at(regions, address);
    let p = region_at(regions, address);
    if p < 0 || p > index {
        assert(!regions[index].holds(address));
    } else if p < index {
        assert(!regions[p].holds(address));
    }
}

/// A range of a bus's RAM that a space maps.
pub struct GuestWindow {
    pub base: u32,
    pub region: SharedRamRegion,
}

impl GuestWindow {
    pub open spec fn model(&self) -> WindowModel {
        WindowModel {
            base: self.base as int,
            bus: self.region.bus.id(),
            start: self.region.start as int,
            len: self.region.len as int,
        }
    }
}

/// A sparse 32-bit address space. An address that several regions hold
/// belongs to the one that was mapped first. Besides its own regions a space
/// has windows on the RAM of buses; the functions that reach through them take
/// the buses, the others work on the space's own regions.
pub struct GuestAddressSpace {
    regions: Vec<GuestRegion>,
    exclusions: Vec<(u32, u32)>,
    windows: Vec<GuestWindow>,
}

impl View for GuestAddressSpace {
    type V = SpaceModel;

    closed spec fn view(&self) -> SpaceModel {
        SpaceModel {
            bytes: Map::new(
                |a: int| region_at(self.regions@, a) >= 0,
                |a: int|
                    self.regions@[region_at(self.regions@, a)].bytes@[a - self.regions@[region_at(
                        self.regions@,
                        a,
                    )].base],
            ),
            writable: Set::new(
                |a: int|
                    region_at(self.regions@, a) >= 0 && self.regions@[region_at(
                        self.regions@,
                        a,
                    )].writable,
            ),
            exclusions: self.exclusions@,
            windows: Seq::new(self.windows@.len(), |i: int| self.windows@[i].model()),
        }
    }
}

/// What holds of every address space: only guest addresses are mapped, and
/// only mapped addresses accept writes.
pub open spec fn space_bounds(space: SpaceModel) -> bool {
    &&& forall|a: int| #[trigger] space.bytes.dom().contains(a) ==> 0 <= a < ADDRESS_LIMIT
    &&& forall|a: int| #[trigger] space.writable.contains(a) ==> space.bytes.dom().contains(a)
}

impl GuestAddressSpace {
    /// An address space without mappings.
    pub fn new() -> (space: Self)
        ensures
            space@ == (SpaceModel {
                bytes: Map::empty(),
                writable: Set::empty(),
                exclusions: Seq::empty(),
                windows: Seq::empty(),
            }),
    {
        let space = GuestAddressSpace {
            regions: Vec::new(),
            exclusions: Vec::new(),
            windows: Vec::new(),
        };
        assert(space@.windows =~= Seq::empty());
        assert(space@.bytes =~= Map::empty());
        assert(space@.writable =~= Set::empty());
        space
    }

    /// The mapped and writable addresses of any space are guest addresses.
    pub proof fn lemma_bounds(&self)
        ensures
            space_bounds(self@),
    {
        assert forall|a: int| #[trigger] self@.bytes.dom().contains(a) implies 0 <= a
            < ADDRESS_LIMIT by {
            lemma_region_at(self.regions@, a);
        }
    }

    fn find_region(&self, address: u32) -> (found: Option<usize>)
        ensures
            match found {
                Some(i) => i < self.regions@.len() && i == region_at(self.regions@, address as int)
                    && self.regions@[i as int].holds(address as int),
                None => region_at(self.regions@, address as int) < 0,
            },
    {
        let mut i: usize = 0;
        while i < self.regions.len()
            invariant
                i <= self.regions@.len(),
                forall|j: int|
                    0 <= j < i ==> !(#[trigger] self.regions@[j]).holds(address as int),
            decreases self.regions@.len() - i,
        {
            let region = &self.regions[i];
            if region.base <= address && ((address - region.base) as usize) < region.bytes.len() {
                proof {
                    lemma_region_at_unique(self.regions@, address as int, i as int);
                }
                return Some(i);
            }
            i += 1;
        }
        proof {
            lemma_region_at(self.regions@, address as int);
        }
        None
    }

    /// Read one byte.
    pub fn read_u8(&self, address: u32) -> (byte: Option<u8>)
        ensures
            match byte {
                Some(byte) => self@.bytes.dom().contains(address as int) && byte
                    == self@.bytes[address as int],
                None => !self@.bytes.dom().contains(address as int),
            },
    {
        match self.find_region(address) {
            Some(i) => {
                let offset: usize = (address - self.regions[i].base) as usize;
                Some(self.regions[i].bytes[offset])
            },
            None => None,
        }
    }

    /// Write one byte; a byte that accepts no writes stays as it is.
    pub fn write_u8(&mut self, address: u32, value: u8) -> (written: Option<()>)
        ensures
            written is Some <==> old(self)@.writable.contains(address as int),
            final(self)@ == (if written is Some {
                old(self)@.store(address as int, seq![value])
            } else {
                old(self)@
            }),
    {
        match self.find_region(address) {
            Some(i) => {
                if !self.regions[i].writable {
                    return None;
                }
                let ghost before = *self;
                let offset: usize = (address - self.regions[i].base) as usize;
                self.regions[i].bytes.set(offset, value);
                proof {
                    assert(self.regions@.len() == before.regions@.len());
                    assert forall|a: int, j: int| 0 <= j < self.regions@.len() implies (
                    #[trigger] self.regions@[j].holds(a)) == before.regions@[j].holds(a) by {}
                    assert forall|a: int| #[trigger] region_at(self.regions@, a) == region_at(
                        before.regions@,
                        a,
                    ) by {
                        lemma_region_at(before.regions@, a);
                        lemma_region_at(self.regions@, a);
                        let p = region_at(before.regions@, a);
                        if p >= 0 {
                            assert(before.regions@[p].holds(a));
                            assert(self.regions@[p].holds(a));
                            assert forall|j: int| 0 <= j < p implies !(
                            #[trigger] self.regions@[j]).holds(a) by {
                                assert(!before.regions@[j].holds(a));
                            }
                            lemma_region_at_unique(self.regions@, a, p);
                        } else {
                            let q = region_at(self.regions@, a);
                            if q >= 0 {
                                assert(self.regions@[q].holds(a));
                                assert(!before.regions@[q].holds(a));
                            }
                        }
                    }
                    assert forall|a: int| #[trigger] self@.bytes.dom().contains(a) implies
                        self@.bytes[a] == before@.store(address as int, seq![value]).bytes[a] by {
                        lemma_region_at(before.regions@, a);
                    }
                    assert(self@.bytes =~= before@.store(address as int, seq![value]).bytes);
                    assert forall|a: int| #[trigger] self@.writable.contains(a)
                        == before@.writable.contains(a) by {
                        lemma_region_at(before.regions@, a);
                        assert(region_at(self.regions@, a) == region_at(before.regions@, a));
                    }
                    assert(self@.writable =~= before@.writable);
                }
                Some(())
            },
            None => None,
        }
    }

    /// Map a region that accepts writes.
    pub fn add_region(&mut self, base: u32, bytes: Vec<u8>)
        ensures
            final(self)@ == old(self)@.map_region(base as int, bytes@, true),
    {
        self.add_mapping(base, bytes, true);
    }

    /// Map a region that refuses writes.
    pub fn add_readonly_region(&mut self, base: u32, bytes: Vec<u8>)
        ensures
            final(self)@ == old(self)@.map_region(base as int, bytes@, false),
    {
        self.add_mapping(base, bytes, false);
    }

    fn add_mapping(&mut self, base: u32, bytes: Vec<u8>, writable: bool)
        ensures
            final(self)@ == old(self)@.map_region(base as int, bytes@, writable),
    {
        let ghost before = *self;
        let ghost data = bytes@;
        self.regions.push(GuestRegion { base, bytes, writable });
        proof {
            let expected = before@.map_region(base as int, data, writable);
            assert(self.regions@.drop_last() =~= before.regions@);
            assert forall|a: int| #[trigger] self@.bytes.dom().contains(a) implies
                expected.bytes.dom().contains(a) && self@.bytes[a] == expected.bytes[a] by {
                lemma_region_at(before.regions@, a);
            }
            assert forall|a: int| #[trigger] expected.bytes.dom().contains(a) implies
                self@.bytes.dom().contains(a) by {
                lemma_region_at(before.regions@, a);
            }
            assert(self@.bytes =~= expected.bytes);
            assert forall|a: int| #[trigger] self@.writable.contains(a) == expected.writable.contains(a) by {
                lemma_region_at(before.regions@, a);
            }
            assert(self@.writable =~= expected.writable);
        }
    }

    /// Keep heap allocation out of a range that ends below the address limit.
    pub fn add_readonly_allocation_exclusion(&mut self, base: u32, len: u32) -> (added: Option<()>)
        ensures
            added is Some <==> base + len <= u32::MAX,
            final(self)@ == (if added is Some && len > 0 {
                SpaceModel {
                    exclusions: old(self)@.exclusions.push((base, (base + len) as u32)),
                    ..old(self)@
                }
            } else {
                old(self)@
            }),
    {
        match base.checked_add(len) {
            Some(end) => {
                if len > 0 {
                    self.exclusions.push((base, end));
                }
                Some(())
            },
            None => None,
        }
    }

    /// Where the excluded range that meets a block ends.
    pub fn readonly_allocation_overlap_end(&self, address: u32, len: u32) -> (end: Option<u32>)
        ensures
            end == overlap_end(self@.exclusions, address as int, len as int),
    {
        find_overlap_end(&self.exclusions, address, len)
    }

    /// Address ranges that heap allocation must step over.
    pub fn allocation_exclusions(&self) -> (exclusions: &Vec<(u32, u32)>)
        ensures
            exclusions@ == self@.exclusions,
    {
        &self.exclusions
    }

    /// Read a run of bytes.
    pub fn read_bytes(&self, address: u32, len: usize) -> (bytes: Option<Vec<u8>>)
        ensures
            bytes is Some <==> self@.mapped(address as int, len as int),
            bytes matches Some(bytes) ==> bytes@ == self@.load(address as int, len as nat),
    {
        let mut bytes: Vec<u8> = Vec::new();
        let mut i: usize = 0;
        while i < len
            invariant
                i <= len,
                bytes@ == self@.load(address as int, i as nat),
                self@.mapped(address as int, i as int),
            decreases len - i,
        {
            proof {
                self.lemma_bounds();
            }
            if i as u64 > 0xffff_ffff - address as u64 {
                assert(!self@.bytes.dom().contains(address + i));
                return None;
            }
            match self.read_u8(address + i as u32) {
                Some(byte) => {
                    bytes.push(byte);
                    assert(bytes@ =~= self@.load(address as int, (i + 1) as nat));
                },
                None => {
                    assert(!self@.bytes.dom().contains(address + i));
                    return None;
                },
            }
            i += 1;
        }
        Some(bytes)
    }

    /// Whether every byte of a range is mapped.
    pub fn is_mapped(&self, address: u32, len: u32) -> (mapped: bool)
        ensures
            mapped == self@.mapped(address as int, len as int),
    {
        let mut i: u32 = 0;
        while i < len
            invariant
                i <= len,
                self@.mapped(address as int, i as int),
            decreases len - i,
        {
            proof {
                self.lemma_bounds();
            }
            if i > 0xffff_ffff - address {
                assert(!self@.bytes.dom().contains(address + i));
                return false;
            }
            if self.find_region(address + i).is_none() {
                assert(!self@.bytes.dom().contains(address + i));
                return false;
            }
            i += 1;
        }
        true
    }

    /// Whether every byte of a range accepts writes.
    pub fn preflight_writable_range(&self, address: u32, len: u32) -> (accepts: bool)
        ensures
            accepts == self@.accepts(address as int, len as int),
    {
        let mut i: u32 = 0;
        while i < len
            invariant
                i <= len,
                self@.accepts(address as int, i as int),
            decreases len - i,
        {
            proof {
                self.lemma_bounds();
            }
            if i > 0xffff_ffff - address {
                assert(!self@.writable.contains(address + i));
                return false;
            }
            match self.find_region(address + i) {
                Some(region) => {
                    if !self.regions[region].writable {
                        assert(!self@.writable.contains(address + i));
                        return false;
                    }
                },
                None => {
                    assert(!self@.writable.contains(address + i));
                    return false;
                },
            }
            i += 1;
        }
        true
    }

    /// Write a run of bytes. Where a byte of the run accepts no writes,
    /// nothing is written.
    pub fn write_bytes(&mut self, address: u32, data: &[u8]) -> (written: Option<()>)
        ensures
            written is Some <==> old(self)@.accepts(address as int, data@.len() as int),
            final(self)@ == (if written is Some {
                old(self)@.store(address as int, data@)
            } else {
                old(self)@
            }),
    {
        let len: usize = data.len();
        let mut i: usize = 0;
        while i < len
            invariant
                i <= len,
                len == data@.len(),
                self@ == old(self)@,
                self@.accepts(address as int, i as int),
            decreases len - i,
        {
            proof {
                self.lemma_bounds();
            }
            if i as u64 > 0xffff_ffff - address as u64 {
                assert(!self@.writable.contains(address + i));
                return None;
            }
            match self.find_region(address + i as u32) {
                Some(region) => {
                    if !self.regions[region].writable {
                        assert(!self@.writable.contains(address + i));
                        return None;
                    }
                },
                None => {
                    assert(!self@.writable.contains(address + i));
                    return None;
                },
            }
            i += 1;
        }
        let mut k: usize = 0;
        let ghost before = self@;
        proof {
            assert(before.store(address as int, data@.take(0)).bytes =~= before.bytes);
            assert(before =~= before.store(address as int, data@.take(0)));
            self.lemma_bounds();
        }
        while k < len
            invariant
                k <= len,
                len == data@.len(),
                before.accepts(address as int, len as int),
                space_bounds(before),
                self@ == before.store(address as int, data@.take(k as int)),
            decreases len - k,
        {
            assert(before.writable.contains(address + k));
            let written = self.write_u8(address + k as u32, data[k]);
            proof {
                let step = before.store(address as int, data@.take(k as int));
                let next = before.store(address as int, data@.take(k + 1));
                assert(step.store(address + k, seq![data@[k as int]]).bytes =~= next.bytes) by {
                    assert(data@.take(k + 1)[k as int] == data@[k as int]);
                }
                assert(self@ =~= next);
            }
            k += 1;
        }
        assert(data@.take(len as int) =~= data@);
        Some(())
    }

    /// Write bytes one by one until a write is refused.
    pub fn write_until_refused(&mut self, address: u32, data: &[u8]) -> (complete: bool)
        ensures
            (final(self)@, complete) == write_run(old(self)@, address as int, data@),
    {
        let len: usize = data.len();
        let mut k: usize = 0;
        let ghost before = self@;
        proof {
            assert(before.store(address as int, data@.take(0)).bytes =~= before.bytes);
            assert(before =~= before.store(address as int, data@.take(0)));
        }
        while k < len
            invariant
                k <= len,
                len == data@.len(),
                before.accepts(address as int, k as int),
                self@ == before.store(address as int, data@.take(k as int)),
                before == old(self)@,
            decreases len - k,
        {
            proof {
                self.lemma_bounds();
                assert(self@.writable == before.writable);
            }
            let refused = if k as u64 > 0xffff_ffff - address as u64 {
                true
            } else {
                self.write_u8(address + k as u32, data[k]).is_none()
            };
            if refused {
                proof {
                    assert(!before.writable.contains(address + k));
                    lemma_writable_run(
                        before,
                        address as int,
                        address + data@.len(),
                        address + k,
                    );
                }
                return false;
            }
            proof {
                let step = before.store(address as int, data@.take(k as int));
                let next = before.store(address as int, data@.take(k + 1));
                assert(step.store(address + k, seq![data@[k as int]]).bytes =~= next.bytes) by {
                    assert(data@.take(k + 1)[k as int] == data@[k as int]);
                }
                assert(self@ =~= next);
            }
            k += 1;
        }
        proof {
            lemma_writable_run(before, address as int, address + data@.len(), address + k);
        }
        true
    }

    /// Read a word.
    pub fn read_u32_be(&self, address: u32) -> (word: Option<u32>)
        ensures
            word == self@.word(address as int),
    {
        match self.read_bytes(address, 4) {
            Some(bytes) => {
                let value: u32 = from_word_bytes(bytes[0], bytes[1], bytes[2], bytes[3]);
                assert(bytes@ =~= seq![bytes@[0], bytes@[1], bytes@[2], bytes@[3]]);
                Some(value)
            },
            None => None,
        }
    }

    /// Write a word; where a byte of it accepts no writes, nothing is written.
    pub fn write_u32_be(&mut self, address: u32, value: u32) -> (written: Option<()>)
        ensures
            written is Some <==> old(self)@.accepts(address as int, 4),
            final(self)@ == (if written is Some {
                old(self)@.store(address as int, word_bytes(value))
            } else {
                old(self)@
            }),
    {
        let bytes = to_word_bytes(value);
        self.write_bytes(address, bytes.as_slice())
    }
}

pub(crate) fn copy_ranges(ranges: &Vec<(u32, u32)>) -> (copy: Vec<(u32, u32)>)
    ensures
        copy@ == ranges@,
{
    let mut copy: Vec<(u32, u32)> = Vec::new();
    let mut i: usize = 0;
    while i < ranges.len()
        invariant
            i <= ranges@.len(),
            copy@ == ranges@.take(i as int),
        decreases ranges@.len() - i,
    {
        copy.push(ranges[i]);
        assert(copy@ =~= ranges@.take(i + 1));
        i += 1;
    }
    assert(ranges@.take(i as int) =~= ranges@);
    copy
}

pub(crate) fn copy_bytes(bytes: &Vec<u8>) -> (copy: Vec<u8>)
    ensures
        copy@ == bytes@,
{
    let copy = bytes.clone();
    assert(copy@ =~= bytes@);
    copy
}

impl CellDefault for GuestAddressSpace {
    open spec fn is_default(&self) -> bool {
        self@ == (SpaceModel {
            bytes: Map::empty(),
            writable: Set::empty(),
            exclusions: Seq::empty(),
            windows: Seq::empty(),
        })
    }

    fn default_value() -> (value: Self) {
        GuestAddressSpace::new()
    }
}

impl GuestAddressSpace {
    /// Map a range of a bus's RAM. What the space maps of its own comes first,
    /// then its windows in their order.
    pub fn add_shared_region(&mut self, base: u32, region: SharedRamRegion)
        ensures
            final(self)@ == (SpaceModel {
                windows: old(self)@.windows.push(GuestWindow { base, region }.model()),
                ..old(self)@
            }),
    {
        let ghost before = self@;
        self.windows.push(GuestWindow { base, region });
        assert(self@.windows =~= before.windows.push(GuestWindow { base, region }.model()));
        assert(self@ =~= SpaceModel { windows: self@.windows, ..before });
    }

    /// The ranges of buses' RAM that the space maps.
    pub fn windows(&self) -> (windows: &Vec<GuestWindow>)
        ensures
            self@.windows == Seq::new(windows@.len(), |i: int| windows@[i].model()),
    {
        &self.windows
    }

    /// A copy of what the space maps of its own, without its windows.
    pub(crate) fn copy_own(&self) -> (copy: Self)
        ensures
            copy@ == (SpaceModel { windows: Seq::empty(), ..self@ }),
    {
        let mut regions: Vec<GuestRegion> = Vec::new();
        let mut i: usize = 0;
        while i < self.regions.len()
            invariant
                i <= self.regions@.len(),
                regions@.len() == i,
                forall|j: int|
                    0 <= j < i ==> (#[trigger] regions@[j]).base == self.regions@[j].base
                        && regions@[j].bytes@ == self.regions@[j].bytes@ && regions@[j].writable
                        == self.regions@[j].writable,
            decreases self.regions@.len() - i,
        {
            let region = &self.regions[i];
            regions.push(
                GuestRegion {
                    base: region.base,
                    bytes: copy_bytes(&region.bytes),
                    writable: region.writable,
                },
            );
            i += 1;
        }
        let copy = GuestAddressSpace {
            regions,
            exclusions: copy_ranges(&self.exclusions),
            windows: Vec::new(),
        };
        proof {
            assert forall|a: int| #[trigger] region_at(copy.regions@, a) == region_at(
                self.regions@,
                a,
            ) by {
                lemma_region_at(self.regions@, a);
                lemma_region_at(copy.regions@, a);
                let p = region_at(self.regions@, a);
                if p >= 0 {
                    assert(copy.regions@[p].holds(a));
                    assert forall|j: int| 0 <= j < p implies !(#[trigger] copy.regions@[j]).holds(a) by {
                        assert(!self.regions@[j].holds(a));
                    }
                    lemma_region_at_unique(copy.regions@, a, p);
                } else {
                    let q = region_at(copy.regions@, a);
                    if q >= 0 {
                        assert(copy.regions@[q].holds(a));
                        assert(!self.regions@[q].holds(a));
                    }
                }
            }
            assert forall|a: int| #[trigger] self@.bytes.dom().contains(a) implies copy@.bytes[a]
                == self@.bytes[a] by {
                lemma_region_at(self.regions@, a);
            }
            assert(copy@.bytes =~= self@.bytes);
            assert forall|a: int| #[trigger] copy@.writable.contains(a) == self@.writable.contains(a) by {
                lemma_region_at(self.regions@, a);
            }
            assert(copy@.writable =~= self@.writable);
            assert(copy@.windows =~= Seq::empty());
        }
        copy
    }
}

} // verus!
