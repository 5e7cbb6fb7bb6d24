//! The classic memory bus: flat RAM, an attached native address space beyond
//! it, and a handle to the classic heap.

use crate::cells::{CellValue, SharedCells, SharedProcessValue};
use crate::classic_heap::{ClassicAllocationPlan, ClassicHeapAllocatorState, HeapModel};
use crate::guest_memory::{from_word_bytes, to_word_bytes, GuestAddressSpace, SpaceModel};
use crate::memory_manager::{ManagerCells, SharedClassicHeapAllocator};
use vstd::prelude::*;

verus! {

/// Bytes at the top of RAM that the classic heap keeps clear of.
pub const CLASSIC_HEAP_HEADROOM: u32 = 0x9_0000;

/// What a bus reaches.
#[verifier::ext_equal]
pub struct BusModel {
    pub ram: Seq<u8>,
    pub foreign: Option<SpaceModel>,
}

impl BusModel {
    /// The byte at an address; unmapped addresses read as zero.
    pub open spec fn byte(self, address: int) -> u8 {
        if address < self.ram.len() {
            self.ram[address]
        } else {
            match self.foreign {
                Some(space) => if space.bytes.dom().contains(address) {
                    space.bytes[address]
                } else {
                    0
                },
                None => 0,
            }
        }
    }

    /// The bus after one byte was written; a byte that takes no writes stays.
    pub open spec fn set_byte(self, address: int, value: u8) -> BusModel {
        if address < self.ram.len() {
            BusModel { ram: self.ram.update(address, value), ..self }
        } else {
            match self.foreign {
                Some(space) => if space.writable.contains(address) {
                    BusModel { foreign: Some(space.store(address, seq![value])), ..self }
                } else {
                    self
                },
                None => self,
            }
        }
    }

    /// The bytes of a run; addresses wrap around.
    pub open spec fn load(self, address: int, len: nat) -> Seq<u8> {
        Seq::new(len, |i: int| self.byte((address + i) % 0x1_0000_0000))
    }

    /// The word at an address.
    pub open spec fn long(self, address: int) -> u32 {
        crate::guest_memory::big_endian(self.load(address, 4)) as u32
    }

    /// The bus after a run of bytes was written.
    pub open spec fn store(self, address: int, data: Seq<u8>) -> BusModel
        decreases data.len(),
    {
        if data.len() == 0 {
            self
        } else {
            self.store(address, data.drop_last()).set_byte(
                (address + data.len() - 1) % 0x1_0000_0000,
                data.last(),
            )
        }
    }

    /// Whether the attached native address space takes writes in a range.
    pub open spec fn foreign_accepts(self, address: int, len: int) -> bool {
        self.foreign matches Some(space) && space.accepts(address, len)
    }

    /// The bus after bytes were written into the attached address space.
    pub open spec fn foreign_store(self, address: int, data: Seq<u8>) -> BusModel {
        BusModel { foreign: Some(self.foreign->0.store(address, data)), ..self }
    }

    /// Address ranges that native heap allocation must step over.
    pub open spec fn exclusions(self) -> Seq<(u32, u32)> {
        match self.foreign {
            Some(space) => space.exclusions,
            None => Seq::empty(),
        }
    }
}

/// A run of equal bytes.
pub open spec fn repeated(value: u8, count: nat) -> Seq<u8> {
    Seq::new(count, |i: int| value)
}

/// The 68K adapter's view of guest memory. Of the attached address space it
/// reaches what that space maps of its own.
pub struct MacMemoryBus {
    pub ram: Vec<u8>,
    pub foreign: Option<SharedProcessValue<GuestAddressSpace>>,
    pub allocator: SharedClassicHeapAllocator,
}

impl SharedClassicHeapAllocator {
    pub open spec fn id(&self) -> int {
        self.cell.id()
    }

    pub open spec fn heap(&self, cells: &ManagerCells) -> HeapModel {
        cells.heaps@[self.cell.id()]@
    }

    /// Another handle to the same heap.
    pub fn shared_handle(&self) -> (handle: Self)
        ensures
            handle.id() == self.id(),
    {
        SharedClassicHeapAllocator { cell: self.cell.shared_handle() }
    }

    /// Whether two handles name one heap.
    pub fn ptr_eq(&self, other: &Self) -> (same: bool)
        ensures
            same == (self.id() == other.id()),
    {
        self.cell.ptr_eq(&other.cell)
    }

    /// The process that claimed the heap.
    pub fn owner_id(&self, cells: &ManagerCells) -> (owner: Option<usize>)
        requires
            self.cell.valid(cells.heaps@),
        ensures
            owner == self.heap(cells).owner,
    {
        cells.heaps.get(&self.cell).owner_id()
    }

    /// A copy of the heap in a cell of its own, claimed by `owner_id`.
    pub fn detached_clone_for_owner(&self, cells: &mut ManagerCells, owner_id: usize) -> (copy: Self)
        requires
            old(cells).sized(),
            self.cell.valid(old(cells).heaps@),
        ensures
            final(cells).sized(),
            copy.id() == old(cells).heaps@.len(),
            copy.heap(final(cells)) == (HeapModel {
                owner: Some(owner_id),
                ..self.heap(old(cells))
            }),
            final(cells).heaps@.len() == old(cells).heaps@.len() + 1,
            final(cells).heaps@.drop_last() == old(cells).heaps@,
            final(cells).owners@ == old(cells).owners@,
            final(cells).handles@ == old(cells).handles@,
            final(cells).states@ == old(cells).states@,
            final(cells).flags@ == old(cells).flags@,
    {
        let mut state = cells.heaps.get(&self.cell).copy_value();
        state.set_owner_id(Some(owner_id));
        let cell = cells.heaps.allocate(state);
        SharedClassicHeapAllocator { cell }
    }

    /// Claim an unclaimed heap for a process.
    pub fn claim_owner(&self, cells: &mut ManagerCells, owner_id: usize)
        requires
            old(cells).sized(),
            self.cell.valid(old(cells).heaps@),
            self.heap(old(cells)).claimable(owner_id),
        ensures
            heaps_step(old(cells), final(cells), self.id()),
            self.heap(final(cells)) == (HeapModel {
                owner: Some(owner_id),
                ..self.heap(old(cells))
            }),
    {
        let heap = cells.heaps.get_mut(&self.cell);
        heap.set_owner_id(Some(owner_id));
    }

    /// Hand a heap from one process to another.
    pub fn transfer_owner(
        &self,
        cells: &mut ManagerCells,
        source_owner_id: usize,
        target_owner_id: usize,
    )
        requires
            old(cells).sized(),
            self.cell.valid(old(cells).heaps@),
            self.heap(old(cells)).owner == Some(source_owner_id),
        ensures
            heaps_step(old(cells), final(cells), self.id()),
            self.heap(final(cells)) == (HeapModel {
                owner: Some(target_owner_id),
                ..self.heap(old(cells))
            }),
    {
        let heap = cells.heaps.get_mut(&self.cell);
        heap.set_owner_id(Some(target_owner_id));
    }

    pub fn is_pristine(&self, cells: &ManagerCells) -> (pristine: bool)
        requires
            self.cell.valid(cells.heaps@),
        ensures
            pristine == self.heap(cells).pristine(),
    {
        cells.heaps.get(&self.cell).is_pristine()
    }

    /// Take over the state of another heap; the owner stays.
    pub fn replace_state_from(&self, cells: &mut ManagerCells, source: &Self)
        requires
            old(cells).sized(),
            self.cell.valid(old(cells).heaps@),
            source.cell.valid(old(cells).heaps@),
        ensures
            heaps_step(old(cells), final(cells), self.id()),
            self.heap(final(cells)) == (HeapModel {
                owner: self.heap(old(cells)).owner,
                ..source.heap(old(cells))
            }),
    {
        let owner = cells.heaps.get(&self.cell).owner_id();
        let mut replacement = cells.heaps.get(&source.cell).copy_value();
        replacement.set_owner_id(owner);
        cells.heaps.set(&self.cell, replacement);
    }

    /// Take over the state of another heap where nothing was allocated yet.
    pub fn replace_pristine_state_from(&self, cells: &mut ManagerCells, source: &Self)
        requires
            old(cells).sized(),
            self.cell.valid(old(cells).heaps@),
            source.cell.valid(old(cells).heaps@),
            self.heap(old(cells)).pristine(),
        ensures
            heaps_step(old(cells), final(cells), self.id()),
            self.heap(final(cells)) == (HeapModel {
                owner: self.heap(old(cells)).owner,
                ..source.heap(old(cells))
            }),
    {
        self.replace_state_from(cells, source);
    }

    /// Forget everything but the owner.
    pub fn reset_state(&self, cells: &mut ManagerCells)
        requires
            old(cells).sized(),
            self.cell.valid(old(cells).heaps@),
        ensures
            heaps_step(old(cells), final(cells), self.id()),
            self.heap(final(cells)) == (HeapModel {
                owner: self.heap(old(cells)).owner,
                ..HeapModel::fresh()
            }),
    {
        let owner = cells.heaps.get(&self.cell).owner_id();
        let mut replacement = ClassicHeapAllocatorState::new();
        replacement.set_owner_id(owner);
        cells.heaps.set(&self.cell, replacement);
    }

    /// Logical size of a live block.
    pub fn allocation_size(&self, cells: &ManagerCells, address: u32) -> (size: Option<u32>)
        requires
            self.cell.valid(cells.heaps@),
        ensures
            size == self.heap(cells).size_of(address),
    {
        cells.heaps.get(&self.cell).allocation_size(address)
    }

    /// Capacity of a live block.
    pub fn allocation_capacity(&self, cells: &ManagerCells, address: u32) -> (capacity: Option<u32>)
        requires
            cells.sized(),
            self.cell.valid(cells.heaps@),
        ensures
            capacity == self.heap(cells).capacity_of(address),
    {
        cells.heaps.get(&self.cell).allocation_capacity(address)
    }

    /// Move the cursor up to the first word at or after an address.
    pub fn reserve_until(&self, cells: &mut ManagerCells, end_addr: u32)
        requires
            old(cells).sized(),
            self.cell.valid(old(cells).heaps@),
            end_addr <= u32::MAX - 3,
        ensures
            heaps_step(old(cells), final(cells), self.id()),
            self.heap(final(cells)) == self.heap(old(cells)).reserve_until(end_addr),
    {
        cells.heaps.get_mut(&self.cell).reserve_until(end_addr);
    }

    /// Keep a span out of later allocations.
    pub fn reserve_range(&self, cells: &mut ManagerCells, start_addr: u32, end_addr: u32)
        requires
            old(cells).sized(),
            self.cell.valid(old(cells).heaps@),
        ensures
            heaps_step(old(cells), final(cells), self.id()),
            self.heap(final(cells)) == self.heap(old(cells)).reserve_range(start_addr, end_addr),
    {
        cells.heaps.get_mut(&self.cell).reserve_range(start_addr, end_addr);
    }

    /// Serve a request; zero where no block can be had.
    pub fn allocate(&self, cells: &mut ManagerCells, size: u32, alignment: u32, heap_limit: u32) -> (
    address: u32)
        requires
            old(cells).sized(),
            self.cell.valid(old(cells).heaps@),
        ensures
            heaps_step(old(cells), final(cells), self.id()),
            (self.heap(final(cells)), address) == self.heap(old(cells)).allocate(
                size,
                alignment,
                heap_limit,
            ),
    {
        cells.heaps.get_mut(&self.cell).allocate(size, alignment, heap_limit)
    }

    /// The allocation that a request would get.
    pub fn allocation_plan(
        &self,
        cells: &ManagerCells,
        size: u32,
        alignment: u32,
        heap_limit: u32,
    ) -> (plan: Option<ClassicAllocationPlan>)
        requires
            self.cell.valid(cells.heaps@),
        ensures
            plan == self.heap(cells).plan(size, alignment, heap_limit),
    {
        cells.heaps.get(&self.cell).allocation_plan(size, alignment, heap_limit)
    }

    /// Carry a plan out, where the heap still admits it.
    pub fn commit_allocation_plan(&self, cells: &mut ManagerCells, plan: ClassicAllocationPlan) -> (
    committed: bool)
        requires
            old(cells).sized(),
            self.cell.valid(old(cells).heaps@),
            plan.requested_size <= u32::MAX - 3,
            plan.alignment > 0,
        ensures
            heaps_step(old(cells), final(cells), self.id()),
            committed == self.heap(old(cells)).admits(plan),
            self.heap(final(cells)) == (if committed {
                self.heap(old(cells)).commit(plan)
            } else {
                self.heap(old(cells))
            }),
    {
        cells.heaps.get_mut(&self.cell).commit_allocation_plan(plan)
    }

    /// The bump cursor.
    pub fn heap_bump_ptr(&self, cells: &ManagerCells) -> (cursor: u32)
        requires
            self.cell.valid(cells.heaps@),
        ensures
            cursor == self.heap(cells).heap_ptr,
    {
        cells.heaps.get(&self.cell).heap_bump_ptr()
    }

    /// Give a live block another logical size.
    pub fn set_allocation_size(&self, cells: &mut ManagerCells, address: u32, size: u32)
        requires
            old(cells).sized(),
            self.cell.valid(old(cells).heaps@),
            size <= u32::MAX - 3,
        ensures
            heaps_step(old(cells), final(cells), self.id()),
            self.heap(final(cells)) == self.heap(old(cells)).resize(address, size),
    {
        cells.heaps.get_mut(&self.cell).set_allocation_size(address, size);
    }

    /// Release a live block.
    pub fn free(&self, cells: &mut ManagerCells, address: u32)
        requires
            old(cells).sized(),
            self.cell.valid(old(cells).heaps@),
        ensures
            heaps_step(old(cells), final(cells), self.id()),
            self.heap(final(cells)) == self.heap(old(cells)).release(address),
    {
        cells.heaps.get_mut(&self.cell).free(address);
    }
}

/// Only one heap changed.
pub open spec fn heaps_step(before: &ManagerCells, after: &ManagerCells, id: int) -> bool {
    &&& after.sized()
    &&& crate::cells::only_cell_changed(before.heaps@, after.heaps@, id)
    &&& after.owners@ == before.owners@
    &&& after.handles@ == before.handles@
    &&& after.states@ == before.states@
    &&& after.flags@ == before.flags@
}

impl MacMemoryBus {
    /// What the bus reaches.
    pub open spec fn model(&self, spaces: &SharedCells<GuestAddressSpace>) -> BusModel {
        BusModel {
            ram: self.ram@,
            foreign: match self.foreign {
                Some(space) => Some(spaces@[space.id()]@),
                None => None,
            },
        }
    }

    /// The bus's cells exist.
    pub open spec fn valid(
        &self,
        cells: &ManagerCells,
        spaces: &SharedCells<GuestAddressSpace>,
    ) -> bool {
        &&& self.allocator.cell.valid(cells.heaps@)
        &&& self.reaches(spaces)
    }

    pub open spec fn reaches(&self, spaces: &SharedCells<GuestAddressSpace>) -> bool {
        self.foreign matches Some(space) ==> space.valid(spaces@)
    }

    /// The bus kept its cells, and no other address space changed.
    pub open spec fn step(
        &self,
        before: &SharedCells<GuestAddressSpace>,
        after: &Self,
        spaces: &SharedCells<GuestAddressSpace>,
    ) -> bool {
        &&& after.reaches(spaces)
        &&& after.ram@.len() == self.ram@.len()
        &&& after.allocator.id() == self.allocator.id()
        &&& match (self.foreign, after.foreign) {
            (Some(a), Some(b)) => a.id() == b.id() && crate::cells::only_cell_changed(
                before@,
                spaces@,
                a.id(),
            ),
            (None, None) => spaces@ == before@,
            _ => false,
        }
    }

    /// A bus with zeroed RAM and a heap of its own.
    pub fn new(cells: &mut ManagerCells, ram_size: u32) -> (bus: Self)
        requires
            old(cells).sized(),
        ensures
            final(cells).sized(),
            bus.ram@ == crate::guest_memory::zeros(ram_size as nat),
            bus.foreign is None,
            bus.allocator.id() == old(cells).heaps@.len(),
            bus.allocator.heap(final(cells)) == HeapModel::fresh(),
            final(cells).heaps@.len() == old(cells).heaps@.len() + 1,
            final(cells).heaps@.drop_last() == old(cells).heaps@,
            final(cells).owners@ == old(cells).owners@,
            final(cells).handles@ == old(cells).handles@,
            final(cells).states@ == old(cells).states@,
            final(cells).flags@ == old(cells).flags@,
    {
        let allocator = SharedClassicHeapAllocator {
            cell: cells.heaps.allocate(ClassicHeapAllocatorState::new()),
        };
        let ram = vec![0u8; ram_size as usize];
        assert(ram@ =~= crate::guest_memory::zeros(ram_size as nat));
        MacMemoryBus { ram, foreign: None, allocator }
    }

    /// Reach a native address space beyond RAM.
    pub fn attach_guest_address_space(&mut self, space: &SharedProcessValue<GuestAddressSpace>)
        ensures
            final(self).ram@ == old(self).ram@,
            final(self).allocator.id() == old(self).allocator.id(),
            final(self).foreign matches Some(attached) && attached.id() == space.id(),
    {
        self.foreign = Some(space.shared_handle());
    }

    /// The classic heap that the bus uses.
    pub fn shared_classic_heap_allocator(&self) -> (allocator: SharedClassicHeapAllocator)
        ensures
            allocator.id() == self.allocator.id(),
    {
        self.allocator.shared_handle()
    }

    pub open spec fn heap_limit(&self) -> int {
        if self.ram@.len() > u32::MAX {
            u32::MAX as int
        } else if self.ram@.len() < CLASSIC_HEAP_HEADROOM {
            0
        } else {
            self.ram@.len() - CLASSIC_HEAP_HEADROOM
        }
    }

    /// Upper bound of classic allocations on this bus.
    pub fn classic_heap_limit(&self) -> (limit: u32)
        ensures
            limit == self.heap_limit(),
    {
        if self.ram.len() as u64 > 0xffff_ffff {
            u32::MAX
        } else {
            (self.ram.len() as u32).saturating_sub(CLASSIC_HEAP_HEADROOM)
        }
    }

    /// Use another classic heap.
    pub fn attach_classic_heap_allocator(&mut self, allocator: &SharedClassicHeapAllocator)
        ensures
            final(self).ram@ == old(self).ram@,
            final(self).foreign == old(self).foreign,
            final(self).allocator.id() == allocator.id(),
    {
        self.allocator = allocator.shared_handle();
    }

    /// Allocate from the bus's classic heap.
    pub fn allocate_block(&self, cells: &mut ManagerCells, size: u32) -> (address: u32)
        requires
            old(cells).sized(),
            self.allocator.cell.valid(old(cells).heaps@),
        ensures
            heaps_step(old(cells), final(cells), self.allocator.id()),
            (self.allocator.heap(final(cells)), address) == self.allocator.heap(
                old(cells),
            ).allocate(size, 4, self.heap_limit() as u32),
    {
        let limit: u32 = self.classic_heap_limit();
        self.allocator.allocate(cells, size, 4, limit)
    }

    /// Release a block of the bus's classic heap.
    pub fn free(&self, cells: &mut ManagerCells, address: u32)
        requires
            old(cells).sized(),
            self.allocator.cell.valid(old(cells).heaps@),
        ensures
            heaps_step(old(cells), final(cells), self.allocator.id()),
            self.allocator.heap(final(cells)) == self.allocator.heap(old(cells)).release(address),
    {
        self.allocator.free(cells, address);
    }

    /// Logical size of a block of the bus's classic heap.
    pub fn get_alloc_size(&self, cells: &ManagerCells, address: u32) -> (size: Option<u32>)
        requires
            self.allocator.cell.valid(cells.heaps@),
        ensures
            size == self.allocator.heap(cells).size_of(address),
    {
        self.allocator.allocation_size(cells, address)
    }

    /// Cursor of the bus's classic heap.
    pub fn heap_bump_ptr(&self, cells: &ManagerCells) -> (cursor: u32)
        requires
            self.allocator.cell.valid(cells.heaps@),
        ensures
            cursor == self.allocator.heap(cells).heap_ptr,
    {
        self.allocator.heap_bump_ptr(cells)
    }

    pub fn read_byte(&self, spaces: &SharedCells<GuestAddressSpace>, address: u32) -> (byte: u8)
        requires
            self.reaches(spaces),
        ensures
            byte == self.model(spaces).byte(address as int),
    {
        if (address as usize) < self.ram.len() {
            self.ram[address as usize]
        } else {
            match &self.foreign {
                Some(space) => match spaces.get(space).read_u8(address) {
                    Some(byte) => byte,
                    None => 0,
                },
                None => 0,
            }
        }
    }

    pub fn write_byte(
        &mut self,
        spaces: &mut SharedCells<GuestAddressSpace>,
        address: u32,
        value: u8,
    )
        requires
            old(self).reaches(old(spaces)),
        ensures
            old(self).step(old(spaces), final(self), final(spaces)),
            final(self).model(final(spaces)) == old(self).model(old(spaces)).set_byte(
                address as int,
                value,
            ),
    {
        if (address as usize) < self.ram.len() {
            self.ram.set(address as usize, value);
        } else {
            match &self.foreign {
                Some(space) => {
                    let _ = spaces.get_mut(space).write_u8(address, value);
                },
                None => {},
            }
        }
    }

    /// Read a word; unmapped bytes read as zero.
    pub fn read_long(&self, spaces: &SharedCells<GuestAddressSpace>, address: u32) -> (word: u32)
        requires
            self.reaches(spaces),
        ensures
            word == self.model(spaces).long(address as int),
    {
        let b0: u8 = self.read_byte(spaces, address);
        let b1: u8 = self.read_byte(spaces, address.wrapping_add(1));
        let b2: u8 = self.read_byte(spaces, address.wrapping_add(2));
        let b3: u8 = self.read_byte(spaces, address.wrapping_add(3));
        assert(self.model(spaces).load(address as int, 4) =~= seq![b0, b1, b2, b3]);
        from_word_bytes(b0, b1, b2, b3)
    }

    /// Write bytes; those that take no writes stay.
    pub fn write_bytes(
        &mut self,
        spaces: &mut SharedCells<GuestAddressSpace>,
        address: u32,
        data: &[u8],
    )
        requires
            old(self).reaches(old(spaces)),
        ensures
            old(self).step(old(spaces), final(self), final(spaces)),
            final(self).model(final(spaces)) == old(self).model(old(spaces)).store(
                address as int,
                data@,
            ),
    {
        let mut i: usize = 0;
        let mut at: u32 = address;
        assert(data@.take(0) =~= Seq::empty());
        while i < data.len()
            invariant
                i <= data@.len(),
                at == (address + i) % 0x1_0000_0000,
                old(self).step(old(spaces), self, spaces),
                self.model(spaces) == old(self).model(old(spaces)).store(
                    address as int,
                    data@.take(i as int),
                ),
            decreases data@.len() - i,
        {
            assert(data@.take(i + 1).drop_last() =~= data@.take(i as int));
            self.write_byte(spaces, at, data[i]);
            at = at.wrapping_add(1);
            i += 1;
        }
        assert(data@.take(i as int) =~= data@);
    }

    pub fn write_long(&mut self, spaces: &mut SharedCells<GuestAddressSpace>, address: u32, value: u32)
        requires
            old(self).reaches(old(spaces)),
        ensures
            old(self).step(old(spaces), final(self), final(spaces)),
            final(self).model(final(spaces)) == old(self).model(old(spaces)).store(
                address as int,
                crate::guest_memory::word_bytes(value),
            ),
    {
        let bytes = to_word_bytes(value);
        self.write_bytes(spaces, address, bytes.as_slice());
    }

    /// Write a run of equal bytes.
    pub fn fill_bytes(
        &mut self,
        spaces: &mut SharedCells<GuestAddressSpace>,
        address: u32,
        len: u32,
        value: u8,
    )
        requires
            old(self).reaches(old(spaces)),
        ensures
            old(self).step(old(spaces), final(self), final(spaces)),
            final(self).model(final(spaces)) == old(self).model(old(spaces)).store(
                address as int,
                repeated(value, len as nat),
            ),
    {
        let mut i: u32 = 0;
        let ghost data = repeated(value, len as nat);
        assert(data.take(0) =~= Seq::empty());
        while i < len
            invariant
                i <= len,
                data == repeated(value, len as nat),
                old(self).step(old(spaces), self, spaces),
                self.model(spaces) == old(self).model(old(spaces)).store(
                    address as int,
                    data.take(i as int),
                ),
            decreases len - i,
        {
            assert(data.take(i + 1).drop_last() =~= data.take(i as int));
            self.write_byte(spaces, address.wrapping_add(i), value);
            i += 1;
        }
        assert(data.take(i as int) =~= data);
    }

    /// Write a run of zero bytes.
    pub fn fill_zeros(&mut self, spaces: &mut SharedCells<GuestAddressSpace>, address: u32, len: u32)
        requires
            old(self).reaches(old(spaces)),
        ensures
            old(self).step(old(spaces), final(self), final(spaces)),
            final(self).model(final(spaces)) == old(self).model(old(spaces)).store(
                address as int,
                crate::guest_memory::zeros(len as nat),
            ),
    {
        self.fill_bytes(spaces, address, len, 0);
        assert(repeated(0, len as nat) =~= crate::guest_memory::zeros(len as nat));
    }

    pub fn read_bytes(&self, spaces: &SharedCells<GuestAddressSpace>, address: u32, len: u32) -> (
    bytes: Vec<u8>)
        requires
            self.reaches(spaces),
        ensures
            bytes@ == self.model(spaces).load(address as int, len as nat),
    {
        let mut bytes: Vec<u8> = Vec::new();
        let mut i: u32 = 0;
        while i < len
            invariant
                i <= len,
                self.reaches(spaces),
                bytes@ == self.model(spaces).load(address as int, i as nat),
            decreases len - i,
        {
            bytes.push(self.read_byte(spaces, address.wrapping_add(i)));
            assert(bytes@ =~= self.model(spaces).load(address as int, (i + 1) as nat));
            i += 1;
        }
        bytes
    }

    /// Write into the attached native address space; nothing is written where
    /// a byte refuses or no space is attached.
    pub fn write_foreign_bytes(
        &mut self,
        spaces: &mut SharedCells<GuestAddressSpace>,
        address: u32,
        data: &[u8],
    ) -> (written: Option<()>)
        requires
            old(self).reaches(old(spaces)),
        ensures
            old(self).step(old(spaces), final(self), final(spaces)),
            written is Some <==> old(self).model(old(spaces)).foreign_accepts(
                address as int,
                data@.len() as int,
            ),
            final(self).model(final(spaces)) == (if written is Some {
                old(self).model(old(spaces)).foreign_store(address as int, data@)
            } else {
                old(self).model(old(spaces))
            }),
    {
        match &self.foreign {
            Some(space) => spaces.get_mut(space).write_bytes(address, data),
            None => None,
        }
    }

    /// Address ranges that native heap allocation must step over.
    pub fn foreign_exclusions(&self, spaces: &SharedCells<GuestAddressSpace>) -> (exclusions: Vec<
        (u32, u32),
    >)
        requires
            self.reaches(spaces),
        ensures
            exclusions@ == self.model(spaces).exclusions(),
    {
        match &self.foreign {
            Some(space) => crate::guest_memory::copy_ranges(
                spaces.get(space).allocation_exclusions(),
            ),
            None => Vec::new(),
        }
    }
}

} // verus!
