//! Ranges of a bus's RAM that address spaces map: a byte that one of them
//! writes is read by all.

use crate::bus::MacMemoryBus;
use crate::cells::{SharedCells, SharedProcessValue};
use crate::guest_memory::{
    from_word_bytes, to_word_bytes, GuestAddressSpace, SpaceModel, WindowModel,
};
use vstd::prelude::*;

verus! {

/// A range of a bus's RAM.
pub struct SharedRamRegion {
    pub bus: SharedProcessValue<MacMemoryBus>,
    pub start: u32,
    pub len: usize,
}

impl SharedRamRegion {
    /// The range lies in the RAM of an existing bus.
    pub open spec fn valid(&self, buses: &SharedCells<MacMemoryBus>) -> bool {
        &&& self.bus.valid(buses@)
        &&& self.start + self.len <= buses@[self.bus.id()].ram@.len()
    }

    /// Another handle to the same range.
    pub fn shared_handle(&self) -> (handle: Self)
        ensures
            handle.bus.id() == self.bus.id(),
            handle.start == self.start,
            handle.len == self.len,
    {
        SharedRamRegion { bus: self.bus.shared_handle(), start: self.start, len: self.len }
    }
}

impl MacMemoryBus {
    /// A range of a bus's RAM, where the RAM has it.
    pub fn shared_ram_region(
        buses: &SharedCells<MacMemoryBus>,
        bus: &SharedProcessValue<MacMemoryBus>,
        start: u32,
        len: usize,
    ) -> (region: Option<SharedRamRegion>)
        requires
            bus.valid(buses@),
        ensures
            region is Some <==> start + len <= buses@[bus.id()].ram@.len(),
            region matches Some(region) ==> region.bus.id() == bus.id() && region.start == start
                && region.len == len,
    {
        let size: usize = buses.get(bus).ram.len();
        if len > size || start as u64 > (size - len) as u64 {
            return None;
        }
        Some(SharedRamRegion { bus: bus.shared_handle(), start, len })
    }
}

/// The RAM of each bus.
pub open spec fn rams(buses: Seq<MacMemoryBus>) -> Seq<Seq<u8>> {
    Seq::new(buses.len(), |i: int| buses[i].ram@)
}

impl WindowModel {
    pub open spec fn holds(self, address: int) -> bool {
        self.base <= address < self.base + self.len && address < crate::guest_memory::ADDRESS_LIMIT
    }

    /// The window lies in the RAM of a bus.
    pub open spec fn fits(self, rams: Seq<Seq<u8>>) -> bool {
        &&& 0 <= self.base
        &&& 0 <= self.bus < rams.len()
        &&& 0 <= self.start
        &&& 0 <= self.len
        &&& self.start + self.len <= rams[self.bus].len()
    }

    /// Where an address lies in the bus's RAM.
    pub open spec fn place(self, address: int) -> int {
        self.start + (address - self.base)
    }

    /// The bytes of the window.
    pub open spec fn bytes(self, rams: Seq<Seq<u8>>) -> Seq<u8> {
        rams[self.bus].subrange(self.start, self.start + self.len)
    }
}

/// The first window that holds an address, or a negative number.
pub open spec fn window_at(windows: Seq<WindowModel>, address: int) -> int
    decreases windows.len(),
{
    if windows.len() == 0 {
        -1
    } else {
        let before = window_at(windows.drop_last(), address);
        if before >= 0 {
            before
        } else if windows.last().holds(address) {
            windows.len() - 1
        } else {
            -1
        }
    }
}

/// The first window that holds an address holds it, and none before it does.
pub proof fn lemma_window_at(windows: Seq<WindowModel>, address: int)
    ensures
        window_at(windows, address) < windows.len(),
        window_at(windows, address) >= 0 ==> windows[window_at(windows, address)].holds(address),
        forall|i: int|
            0 <= i < windows.len() && (window_at(windows, address) < 0 || i < window_at(
                windows,
                address,
            )) ==> !(#[trigger] windows[i]).holds(address),
    decreases windows.len(),
{
    if windows.len() > 0 {
        let rest = windows.drop_last();
        lemma_window_at(rest, address);
        assert forall|i: int|
            0 <= i < windows.len() && (window_at(windows, address) < 0 || i < window_at(
                windows,
                address,
            )) implies !(#[trigger] windows[i]).holds(address) by {
            if i < rest.len() {
                assert(rest[i] == windows[i]);
            }
        }
    }
}

/// Every window lies in the RAM of a bus.
pub open spec fn windows_fit(windows: Seq<WindowModel>, rams: Seq<Seq<u8>>) -> bool {
    forall|i: int| 0 <= i < windows.len() ==> (#[trigger] windows[i]).fits(rams)
}

impl SpaceModel {
    /// The space with windows mapped one after the other.
    pub open spec fn with_windows(self, windows: Seq<WindowModel>, rams: Seq<Seq<u8>>) -> SpaceModel
        decreases windows.len(),
    {
        if windows.len() == 0 {
            self
        } else {
            self.with_windows(windows.drop_last(), rams).map_region(
                windows.last().base,
                windows.last().bytes(rams),
                true,
            )
        }
    }

    /// What the space maps, its windows included.
    pub open spec fn seen(self, rams: Seq<Seq<u8>>) -> SpaceModel {
        self.with_windows(self.windows, rams)
    }

    /// The space and the RAMs after one byte was written.
    pub open spec fn written(self, rams: Seq<Seq<u8>>, address: int, value: u8) -> (
        SpaceModel,
        Seq<Seq<u8>>,
    ) {
        if self.bytes.dom().contains(address) {
            (self.store(address, seq![value]), rams)
        } else {
            let window = self.windows[window_at(self.windows, address)];
            (
                self,
                rams.update(window.bus, rams[window.bus].update(window.place(address), value)),
            )
        }
    }

    /// The space and the RAMs after a run of bytes was written.
    pub open spec fn written_all(self, rams: Seq<Seq<u8>>, address: int, data: Seq<u8>) -> (
        SpaceModel,
        Seq<Seq<u8>>,
    )
        decreases data.len(),
    {
        if data.len() == 0 {
            (self, rams)
        } else {
            let (space, others) = self.written_all(rams, address, data.drop_last());
            space.written(others, address + data.len() - 1, data.last())
        }
    }
}

/// What a space maps at an address: its own byte, else that of the first
/// window that holds the address.
pub proof fn lemma_seen(space: SpaceModel, windows: Seq<WindowModel>, rams: Seq<Seq<u8>>, address: int)
    requires
        windows_fit(windows, rams),
    ensures
        ({
            let seen = space.with_windows(windows, rams);
            let at = window_at(windows, address);
            &&& seen.windows == space.windows
            &&& seen.exclusions == space.exclusions
            &&& seen.bytes.dom().contains(address) <==> space.bytes.dom().contains(address) || at
                >= 0
            &&& space.bytes.dom().contains(address) ==> seen.bytes[address] == space.bytes[address]
                && seen.writable.contains(address) == space.writable.contains(address)
            &&& !space.bytes.dom().contains(address) && at >= 0 ==> {
                &&& seen.bytes[address] == rams[windows[at].bus][windows[at].place(address)]
                &&& seen.writable.contains(address)
            }
            &&& !space.bytes.dom().contains(address) && at < 0 ==> seen.writable.contains(address)
                == space.writable.contains(address)
        }),
    decreases windows.len(),
{
    if windows.len() > 0 {
        let rest = windows.drop_last();
        assert forall|i: int| 0 <= i < rest.len() implies (#[trigger] rest[i]).fits(rams) by {
            assert(windows[i].fits(rams));
        }
        lemma_seen(space, rest, rams, address);
        lemma_window_at(rest, address);
        assert(windows[windows.len() - 1].fits(rams));
    }
}

impl GuestAddressSpace {
    /// Every window lies in the RAM of an existing bus.
    pub open spec fn reaches(&self, buses: &SharedCells<MacMemoryBus>) -> bool {
        windows_fit(self@.windows, rams(buses@))
    }

    fn find_window(&self, address: u32) -> (found: Option<usize>)
        ensures
            match found {
                Some(i) => i == window_at(self@.windows, address as int),
                None => window_at(self@.windows, address as int) < 0,
            },
    {
        let windows = self.windows();
        let count: usize = windows.len();
        let mut i: usize = 0;
        proof {
            lemma_window_at(self@.windows, address as int);
        }
        while i < count
            invariant
                i <= count,
                count == windows@.len(),
                self@.windows == Seq::new(windows@.len(), |k: int| windows@[k].model()),
                forall|j: int| 0 <= j < i ==> !(#[trigger] self@.windows[j]).holds(address as int),
            decreases count - i,
        {
            let window = &windows[i];
            assert(self@.windows[i as int] == window.model());
            if window.base <= address && ((address - window.base) as usize) < window.region.len {
                proof {
                    lemma_window_at(self@.windows, address as int);
                }
                return Some(i);
            }
            i += 1;
        }
        proof {
            lemma_window_at(self@.windows, address as int);
        }
        None
    }

    /// Read one byte, also through a window.
    pub fn read_seen_u8(&self, buses: &SharedCells<MacMemoryBus>, address: u32) -> (byte: Option<u8>)
        requires
            self.reaches(buses),
        ensures
            match byte {
                Some(byte) => self@.seen(rams(buses@)).bytes.dom().contains(address as int) && byte
                    == self@.seen(rams(buses@)).bytes[address as int],
                None => !self@.seen(rams(buses@)).bytes.dom().contains(address as int),
            },
    {
        proof {
            lemma_seen(self@, self@.windows, rams(buses@), address as int);
            lemma_window_at(self@.windows, address as int);
        }
        let own = self.read_u8(address);
        if own.is_some() {
            return own;
        }
        match self.find_window(address) {
            Some(i) => {
                let window = &self.windows()[i];
                assert(self@.windows[i as int].fits(rams(buses@)));
                let ram = &buses.get(&window.region.bus).ram;
                let size: usize = ram.len();
                assert(window.model().place(address as int) < size);
                let offset: usize = window.region.start as usize + (address - window.base) as usize;
                Some(ram[offset])
            },
            None => None,
        }
    }

    /// Whether an address takes a byte, also through a window.
    fn takes_seen_u8(&self, buses: &SharedCells<MacMemoryBus>, address: u32) -> (takes: bool)
        requires
            self.reaches(buses),
        ensures
            takes == self@.seen(rams(buses@)).writable.contains(address as int),
    {
        proof {
            lemma_seen(self@, self@.windows, rams(buses@), address as int);
            self.lemma_bounds();
        }
        if self.read_u8(address).is_some() {
            let takes = self.preflight_writable_range(address, 1);
            assert(self@.accepts(address as int, 1) == self@.writable.contains(address as int)) by {
                if self@.writable.contains(address as int) {
                    assert forall|a: int| address <= a < address + 1 implies
                        #[trigger] self@.writable.contains(a) by {}
                }
            }
            takes
        } else {
            self.find_window(address).is_some()
        }
    }

    /// Write one byte, also through a window; a byte that accepts no writes
    /// stays as it is.
    pub fn write_seen_u8(
        &mut self,
        buses: &mut SharedCells<MacMemoryBus>,
        address: u32,
        value: u8,
    ) -> (written: Option<()>)
        requires
            old(self).reaches(old(buses)),
        ensures
            written is Some <==> old(self)@.seen(rams(old(buses)@)).writable.contains(
                address as int,
            ),
            (final(self)@, rams(final(buses)@)) == (if written is Some {
                old(self)@.written(rams(old(buses)@), address as int, value)
            } else {
                (old(self)@, rams(old(buses)@))
            }),
            only_rams_changed(old(buses)@, final(buses)@),
            final(self)@.windows == old(self)@.windows,
            final(self).reaches(final(buses)),
    {
        let ghost before = rams(buses@);
        let ghost space = self@;
        proof {
            lemma_seen(self@, self@.windows, before, address as int);
            lemma_window_at(self@.windows, address as int);
            self.lemma_bounds();
        }
        if self.read_u8(address).is_some() {
            let written = self.write_u8(address, value);
            return written;
        }
        match self.find_window(address) {
            Some(i) => {
                let window = &self.windows()[i];
                assert(self@.windows[i as int].fits(before));
                let size: usize = buses.get(&window.region.bus).ram.len();
                assert(window.model().place(address as int) < size);
                let offset: usize = window.region.start as usize + (address - window.base) as usize;
                buses.get_mut(&window.region.bus).ram.set(offset, value);
                proof {
                    let id = window.region.bus.id();
                    assert(rams(buses@) =~= before.update(id, before[id].update(offset as int, value)));
                    assert forall|k: int| 0 <= k < self@.windows.len() implies (
                    #[trigger] self@.windows[k]).fits(rams(buses@)) by {
                        assert(self@.windows[k].fits(before));
                    }
                }
                Some(())
            },
            None => None,
        }
    }

    /// Read a run of bytes, also through windows.
    pub fn read_seen_bytes(&self, buses: &SharedCells<MacMemoryBus>, address: u32, len: usize) -> (
    bytes: Option<Vec<u8>>)
        requires
            self.reaches(buses),
        ensures
            bytes is Some <==> self@.seen(rams(buses@)).mapped(address as int, len as int),
            bytes matches Some(bytes) ==> bytes@ == self@.seen(rams(buses@)).load(
                address as int,
                len as nat,
            ),
    {
        let ghost seen = self@.seen(rams(buses@));
        let mut bytes: Vec<u8> = Vec::new();
        let mut i: usize = 0;
        while i < len
            invariant
                i <= len,
                self.reaches(buses),
                seen == self@.seen(rams(buses@)),
                bytes@ == seen.load(address as int, i as nat),
                seen.mapped(address as int, i as int),
            decreases len - i,
        {
            proof {
                self.lemma_seen_bounds(buses, address + i);
            }
            if i as u64 > 0xffff_ffff - address as u64 {
                assert(!seen.bytes.dom().contains(address + i));
                return None;
            }
            match self.read_seen_u8(buses, address + i as u32) {
                Some(byte) => {
                    bytes.push(byte);
                    assert(bytes@ =~= seen.load(address as int, (i + 1) as nat));
                },
                None => {
                    assert(!seen.bytes.dom().contains(address + i));
                    return None;
                },
            }
            i += 1;
        }
        Some(bytes)
    }

    /// Only guest addresses are mapped and take bytes.
    proof fn lemma_seen_bounds(&self, buses: &SharedCells<MacMemoryBus>, address: int)
        requires
            self.reaches(buses),
        ensures
            self@.seen(rams(buses@)).bytes.dom().contains(address) ==> address
                < crate::guest_memory::ADDRESS_LIMIT,
            self@.seen(rams(buses@)).writable.contains(address) ==> address
                < crate::guest_memory::ADDRESS_LIMIT,
    {
        self.lemma_bounds();
        lemma_seen(self@, self@.windows, rams(buses@), address);
        lemma_window_at(self@.windows, address);
    }

    /// Write a run of bytes, also through windows. Where a byte of the run
    /// accepts no writes, nothing is written.
    pub fn write_seen_bytes(
        &mut self,
        buses: &mut SharedCells<MacMemoryBus>,
        address: u32,
        data: &[u8],
    ) -> (written: Option<()>)
        requires
            old(self).reaches(old(buses)),
        ensures
            written is Some <==> old(self)@.seen(rams(old(buses)@)).accepts(
                address as int,
                data@.len() as int,
            ),
            (final(self)@, rams(final(buses)@)) == (if written is Some {
                old(self)@.written_all(rams(old(buses)@), address as int, data@)
            } else {
                (old(self)@, rams(old(buses)@))
            }),
            only_rams_changed(old(buses)@, final(buses)@),
            final(self)@.windows == old(self)@.windows,
            final(self).reaches(final(buses)),
    {
        let ghost seen = self@.seen(rams(buses@));
        let ghost space = self@;
        let ghost before = rams(buses@);
        let len: usize = data.len();
        let mut i: usize = 0;
        while i < len
            invariant
                i <= len,
                len == data@.len(),
                self.reaches(buses),
                self@ == space,
                *buses == *old(buses),
                seen == self@.seen(rams(buses@)),
                seen.accepts(address as int, i as int),
                address + i <= 0x1_0000_0000,
            decreases len - i,
        {
            proof {
                self.lemma_seen_bounds(buses, address + i);
            }
            if i as u64 > 0xffff_ffff - address as u64 || !self.takes_seen_u8(
                buses,
                address + i as u32,
            ) {
                assert(!seen.writable.contains(address + i));
                return None;
            }
            i += 1;
        }
        let mut k: usize = 0;
        assert(data@.take(0) =~= Seq::empty());
        while k < len
            invariant
                k <= len,
                len == data@.len(),
                self.reaches(buses),
                seen == space.seen(before),
                seen.accepts(address as int, len as int),
                forall|a: int| #[trigger]
                    self@.seen(rams(buses@)).writable.contains(a) == seen.writable.contains(a),
                address + len <= 0x1_0000_0000,
                self@.windows == space.windows,
                only_rams_changed(old(buses)@, buses@),
                (self@, rams(buses@)) == space.written_all(
                    before,
                    address as int,
                    data@.take(k as int),
                ),
            decreases len - k,
        {
            let ghost now = self@;
            let ghost present = rams(buses@);
            proof {
                assert(data@.take(k + 1).drop_last() =~= data@.take(k as int));
                assert(seen.writable.contains(address + k));
            }
            let written = self.write_seen_u8(buses, address + k as u32, data[k]);
            proof {
                assert forall|a: int| #[trigger]
                    self@.seen(rams(buses@)).writable.contains(a) == seen.writable.contains(a) by {
                    assert(now.seen(present).writable.contains(a) == seen.writable.contains(a));
                    lemma_seen(now, now.windows, present, a);
                    lemma_seen(self@, self@.windows, rams(buses@), a);
                }
            }
            k += 1;
        }
        assert(data@.take(len as int) =~= data@);
        Some(())
    }

    /// Read a word, also through windows.
    pub fn read_seen_u32_be(&self, buses: &SharedCells<MacMemoryBus>, address: u32) -> (word: Option<
        u32,
    >)
        requires
            self.reaches(buses),
        ensures
            word == self@.seen(rams(buses@)).word(address as int),
    {
        match self.read_seen_bytes(buses, address, 4) {
            Some(bytes) => {
                let value: u32 = from_word_bytes(bytes[0], bytes[1], bytes[2], bytes[3]);
                assert(bytes@ =~= seq![bytes@[0], bytes@[1], bytes@[2], bytes@[3]]);
                Some(value)
            },
            None => None,
        }
    }

    /// Write a word, also through windows; where a byte of it accepts no
    /// writes, nothing is written.
    pub fn write_seen_u32_be(
        &mut self,
        buses: &mut SharedCells<MacMemoryBus>,
        address: u32,
        value: u32,
    ) -> (written: Option<()>)
        requires
            old(self).reaches(old(buses)),
        ensures
            written is Some <==> old(self)@.seen(rams(old(buses)@)).accepts(address as int, 4),
            (final(self)@, rams(final(buses)@)) == (if written is Some {
                old(self)@.written_all(
                    rams(old(buses)@),
                    address as int,
                    crate::guest_memory::word_bytes(value),
                )
            } else {
                (old(self)@, rams(old(buses)@))
            }),
            only_rams_changed(old(buses)@, final(buses)@),
            final(self)@.windows == old(self)@.windows,
            final(self).reaches(final(buses)),
    {
        let bytes = to_word_bytes(value);
        self.write_seen_bytes(buses, address, bytes.as_slice())
    }

    /// A copy with bytes of its own where the space has windows.
    pub fn detached_clone(&self, buses: &SharedCells<MacMemoryBus>) -> (copy: Self)
        requires
            self.reaches(buses),
        ensures
            copy@ == (SpaceModel { windows: Seq::empty(), ..self@.seen(rams(buses@)) }),
    {
        let mut copy = self.copy_own();
        let windows = self.windows();
        let count: usize = windows.len();
        let ghost all = self@.windows;
        let ghost present = rams(buses@);
        let mut i: usize = 0;
        assert(all.take(0) =~= Seq::empty());
        while i < count
            invariant
                i <= count,
                count == windows@.len(),
                all == self@.windows,
                all == Seq::new(windows@.len(), |k: int| windows@[k].model()),
                present == rams(buses@),
                windows_fit(all, present),
                copy@ == (SpaceModel {
                    windows: Seq::empty(),
                    ..self@.with_windows(all.take(i as int), present)
                }),
            decreases count - i,
        {
            let window = &windows[i];
            assert(all[i as int].fits(present));
            assert(all[i as int] == window.model());
            let bytes = copy_range(
                &buses.get(&window.region.bus).ram,
                window.region.start as usize,
                window.region.len,
            );
            let ghost shorter = self@.with_windows(all.take(i as int), present);
            copy.add_region(window.base, bytes);
            proof {
                assert(all.take(i + 1).drop_last() =~= all.take(i as int));
                assert(all.take(i + 1).last() == window.model());
                assert(bytes@ =~= window.model().bytes(present));
                assert(copy@ =~= SpaceModel {
                    windows: Seq::empty(),
                    ..shorter.map_region(window.base as int, bytes@, true)
                });
            }
            i += 1;
        }
        assert(all.take(count as int) =~= all);
        copy
    }
}

fn copy_range(bytes: &Vec<u8>, start: usize, len: usize) -> (copy: Vec<u8>)
    requires
        start + len <= bytes@.len(),
    ensures
        copy@ == bytes@.subrange(start as int, start + len),
{
    let mut copy: Vec<u8> = Vec::new();
    let size: usize = bytes.len();
    let mut i: usize = 0;
    while i < len
        invariant
            i <= len,
            size == bytes@.len(),
            start + len <= size,
            copy@ == bytes@.subrange(start as int, start + i),
        decreases len - i,
    {
        copy.push(bytes[start + i]);
        i += 1;
        assert(copy@ =~= bytes@.subrange(start as int, start + i));
    }
    copy
}

/// No bus changed but in its RAM, which kept its size.
pub open spec fn only_rams_changed(before: Seq<MacMemoryBus>, after: Seq<MacMemoryBus>) -> bool {
    &&& after.len() == before.len()
    &&& forall|i: int|
        0 <= i < before.len() ==> (#[trigger] after[i]) == (MacMemoryBus {
            ram: after[i].ram,
            ..before[i]
        }) && after[i].ram@.len() == before[i].ram@.len()
}

} // verus!
