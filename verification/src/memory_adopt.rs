//! Memory Managers that change hands: snapshots, attached buses and adoption.

use crate::assoc::KeySet;
use crate::bus::MacMemoryBus;
use crate::classic_heap::HeapModel;
use crate::memory_manager::{ManagerCells, ProcessNativeMemoryManager};
use crate::memory_model::ManagerModel;
use crate::native_heap::{copy_handle_records, ProcessHandleRecord};
use vstd::prelude::*;

verus! {

impl ManagerCells {
    /// Every cell of `self` is in `after`, unchanged.
    pub open spec fn extended_by(&self, after: &ManagerCells) -> bool {
        &&& crate::cells::cells_extend(self.owners@, after.owners@)
        &&& crate::cells::cells_extend(self.heaps@, after.heaps@)
        &&& crate::cells::cells_extend(self.handles@, after.handles@)
        &&& crate::cells::cells_extend(self.states@, after.states@)
        &&& crate::cells::cells_extend(self.flags@, after.flags@)
    }
}

impl ManagerModel {
    /// Nothing was allocated from the native heap.
    pub open spec fn native_pristine(self) -> bool {
        &&& self.records.len() == 0
        &&& self.native_ptrs == Set::<u32>::empty()
        &&& self.native_handles == Set::<u32>::empty()
        &&& match self.native {
            Some(native) => {
                &&& native.heap == native.initial_heap
                &&& native.ptrs.len() == 0
                &&& native.free_ptrs.len() == 0
                &&& native.free_handles.len() == 0
            },
            None => true,
        }
    }

    /// The manager with its owner's mark on another manager's heap.
    pub open spec fn claimed(self, heap: HeapModel) -> HeapModel {
        HeapModel { owner: Some(self.owner as usize), ..heap }
    }

    /// What the manager holds after it went back to a snapshot. Its own heap
    /// keeps its owner.
    pub open spec fn restored(self, snapshot: ManagerModel) -> ManagerModel {
        ManagerModel {
            owner: self.owner,
            classic: match (self.classic, snapshot.classic) {
                (Some(current), Some(kept)) => Some(HeapModel { owner: current.owner, ..kept }),
                (None, Some(kept)) => Some(self.claimed(kept)),
                _ => None,
            },
            ..snapshot
        }
    }

    /// Whether a bus's classic heap may join the manager's.
    pub open spec fn can_attach(self, bus_heap: HeapModel, same: bool, bus_limit: u32) -> bool {
        &&& self.classic_limit matches Some(limit) ==> limit == bus_limit
        &&& bus_heap.claimable(self.owner as usize)
        &&& self.classic matches Some(heap) ==> same || heap.pristine() || bus_heap.pristine()
    }

    /// The classic heap after a bus joined: a populated heap replaces a
    /// pristine one.
    pub open spec fn attached_heap(self, bus_heap: HeapModel, same: bool) -> HeapModel {
        match self.classic {
            Some(heap) if !same => if heap.pristine() && !bus_heap.pristine() {
                HeapModel { owner: heap.owner, ..bus_heap }
            } else {
                heap
            },
            _ => self.claimed(bus_heap),
        }
    }

    /// Whether another manager's holdings can pass to this one.
    pub open spec fn can_adopt(self, source: ManagerModel) -> bool {
        &&& self.native_pristine() || source.native_pristine()
        &&& source.classic matches Some(heap) ==> self.classic is None && heap.owner == Some(
            source.owner as usize,
        )
        &&& match (self.classic_limit, source.classic_limit) {
            (Some(target), Some(limit)) => target == limit,
            _ => true,
        }
    }

    /// The application boundary after adoption. The present one counts while
    /// it lies within the other manager's native heap.
    pub open spec fn adopted_limit(self, source: ManagerModel) -> Option<u32> {
        match self.application_limit {
            None => source.application_limit,
            Some(limit) => match source.native {
                Some(native) if !(native.heap.heap_cursor <= limit <= native.heap.heap_limit) =>
                    source.application_limit,
                _ => Some(limit),
            },
        }
    }

    /// Whether adoption takes the other manager's native heap.
    pub open spec fn takes_native(self, source: ManagerModel) -> bool {
        self.native_pristine() && (!source.native_pristine() || (self.native is None
            && source.native is Some))
    }

    /// What the manager holds after it adopted another one.
    pub open spec fn adopted(self, source: ManagerModel) -> ManagerModel {
        let native = if self.takes_native(source) {
            source
        } else {
            self
        };
        ManagerModel {
            owner: self.owner,
            classic: match source.classic {
                Some(heap) => Some(self.claimed(heap)),
                None => self.classic,
            },
            classic_limit: if source.classic is Some {
                source.classic_limit
            } else {
                self.classic_limit
            },
            ptr_to_handle: self.ptr_to_handle.union_prefer_right(source.ptr_to_handle),
            states: self.states.union_prefer_right(source.states),
            high: self.high.union_prefer_right(source.high),
            native_ptrs: native.native_ptrs,
            native_handles: native.native_handles,
            records: native.records,
            native: native.native,
            dirty: native.dirty,
            application_limit: self.adopted_limit(source),
        }
    }
}

impl ProcessNativeMemoryManager {
    /// Two managers have no cell in common.
    pub open spec fn separate(&self, other: &Self) -> bool {
        &&& self.classic_owner.id() != other.classic_owner.id()
        &&& self.ptr_to_handle.id() != other.ptr_to_handle.id()
        &&& self.handle_state_bits.id() != other.handle_state_bits.id()
        &&& self.handle_high_locked.id() != other.handle_high_locked.id()
        &&& match (self.classic_allocator, other.classic_allocator) {
            (Some(a), Some(b)) => a.cell.id() != b.cell.id(),
            _ => true,
        }
    }

    /// A copy with cells of its own.
    pub fn detached_clone(&self, cells: &mut ManagerCells) -> (copy: Self)
        requires
            self.valid(old(cells)),
        ensures
            old(cells).extended_by(final(cells)),
            copy.valid(final(cells)),
            self.valid(final(cells)),
            copy.separate(self),
            copy.classic_owner.id() == old(cells).owners@.len(),
            copy.ptr_to_handle.id() == old(cells).handles@.len(),
            copy.handle_state_bits.id() == old(cells).states@.len(),
            copy.handle_high_locked.id() == old(cells).flags@.len(),
            copy.classic_allocator matches Some(heap) ==> heap.cell.id() == old(cells).heaps@.len(),
            copy.model(final(cells)) == ({
                let owner = old(cells).owners@.len() as int;
                ManagerModel {
                    owner,
                    classic: match self.model(old(cells)).classic {
                        Some(heap) => Some(HeapModel { owner: Some(owner as usize), ..heap }),
                        None => None,
                    },
                    ..self.model(old(cells))
                }
            }),
    {
        let classic_owner = cells.owners.allocate(());
        let owner_id: usize = classic_owner.index();
        let classic_allocator = match &self.classic_allocator {
            Some(allocator) => Some(allocator.detached_clone_for_owner(cells, owner_id)),
            None => None,
        };
        ProcessNativeMemoryManager {
            classic_owner,
            classic_allocator,
            classic_heap_limit: self.classic_heap_limit,
            ptr_to_handle: self.ptr_to_handle.detached_clone(&mut cells.handles),
            handle_state_bits: self.handle_state_bits.detached_clone(&mut cells.states),
            handle_high_locked: self.handle_high_locked.detached_clone(&mut cells.flags),
            native_handle_ptrs: self.native_handle_ptrs.copy_set(),
            native_handles: self.native_handles.copy_set(),
            native_allocations: copy_handle_records(&self.native_allocations),
            native_allocator: match &self.native_allocator {
                Some(allocator) => Some(allocator.snapshot()),
                None => None,
            },
            native_allocator_dirty: self.native_allocator_dirty,
            application_heap_limit: self.application_heap_limit,
        }
    }

    /// Go back to a snapshot. The manager's own cells take the snapshot's
    /// values, so that everything that shares them goes back too.
    pub fn restore_native_snapshot(&mut self, cells: &mut ManagerCells, snapshot: Self)
        requires
            old(self).valid(old(cells)),
            snapshot.valid(old(cells)),
        ensures
            final(self).valid(final(cells)),
            final(self).classic_owner.id() == old(self).classic_owner.id(),
            final(self).ptr_to_handle.id() == old(self).ptr_to_handle.id(),
            final(self).handle_state_bits.id() == old(self).handle_state_bits.id(),
            final(self).handle_high_locked.id() == old(self).handle_high_locked.id(),
            final(self).model(final(cells)) == old(self).model(old(cells)).restored(
                snapshot.model(old(cells)),
            ),
            match (old(self).classic_allocator, final(self).classic_allocator) {
                (Some(current), Some(kept)) => current.id() == kept.id(),
                (Some(current), None) => current.heap(final(cells)) == (HeapModel {
                    owner: current.heap(old(cells)).owner,
                    ..HeapModel::fresh()
                }),
                (None, Some(taken)) => taken.id() == old(cells).heaps@.len(),
                (None, None) => true,
            },
            final(cells).heaps@.len() == old(cells).heaps@.len() + (if old(
                self,
            ).classic_allocator is None && snapshot.classic_allocator is Some {
                1int
            } else {
                0
            }),
            forall|i: int|
                0 <= i < old(cells).heaps@.len() && !old(self).attached_to(i) ==> #[trigger] final(cells).heaps@[i]
                    == old(cells).heaps@[i],
            final(cells).owners@ == old(cells).owners@,
            crate::cells::only_cell_changed(
                old(cells).handles@,
                final(cells).handles@,
                old(self).ptr_to_handle.id(),
            ),
            crate::cells::only_cell_changed(
                old(cells).states@,
                final(cells).states@,
                old(self).handle_state_bits.id(),
            ),
            crate::cells::only_cell_changed(
                old(cells).flags@,
                final(cells).flags@,
                old(self).handle_high_locked.id(),
            ),
    {
        let ghost kept_model = snapshot.model(cells);
        match (&self.classic_allocator, &snapshot.classic_allocator) {
            (Some(current), Some(kept)) => {
                current.replace_state_from(cells, kept);
            },
            (None, Some(kept)) => {
                let owner_id: usize = self.classic_owner.index();
                self.classic_allocator = Some(kept.detached_clone_for_owner(cells, owner_id));
            },
            (Some(current), None) => {
                current.reset_state(cells);
                self.classic_allocator = None;
            },
            (None, None) => {},
        }
        self.classic_heap_limit = snapshot.classic_heap_limit;
        self.ptr_to_handle.replace_from(&mut cells.handles, &snapshot.ptr_to_handle);
        self.handle_state_bits.replace_from(&mut cells.states, &snapshot.handle_state_bits);
        self.handle_high_locked.replace_from(&mut cells.flags, &snapshot.handle_high_locked);
        self.native_handle_ptrs = snapshot.native_handle_ptrs;
        self.native_handles = snapshot.native_handles;
        self.native_allocations = snapshot.native_allocations;
        self.native_allocator = snapshot.native_allocator;
        self.native_allocator_dirty = snapshot.native_allocator_dirty;
        self.application_heap_limit = snapshot.application_heap_limit;
    }

    /// No cell changed but the manager's classic heap and that of a bus, which
    /// the manager claimed and left as it was.
    pub open spec fn heaps_attached(
        &self,
        bus_heap: int,
        before: &ManagerCells,
        after: &ManagerCells,
    ) -> bool {
        &&& after.heaps@.len() == before.heaps@.len()
        &&& forall|i: int|
            0 <= i < before.heaps@.len() && i != bus_heap && !self.attached_to(i)
                ==> #[trigger] after.heaps@[i] == before.heaps@[i]
        &&& after.heaps@[bus_heap]@ == self.model(before).claimed(before.heaps@[bus_heap]@)
        &&& after.owners@ == before.owners@
        &&& after.handles@ == before.handles@
        &&& after.states@ == before.states@
        &&& after.flags@ == before.flags@
    }

    /// Join the classic heap of a bus to the process's. The first bus
    /// contributes its heap; later ones use that heap too.
    pub fn attach_classic_memory_bus(&mut self, cells: &mut ManagerCells, bus: &mut MacMemoryBus)
        requires
            old(self).valid(old(cells)),
            old(bus).allocator.cell.valid(old(cells).heaps@),
            old(self).model(old(cells)).can_attach(
                old(bus).allocator.heap(old(cells)),
                old(self).attached(old(bus)),
                old(bus).heap_limit() as u32,
            ),
        ensures
            final(self).valid(final(cells)),
            final(self).attached(final(bus)),
            final(bus).ram@ == old(bus).ram@,
            final(bus).foreign == old(bus).foreign,
            final(self).model(final(cells)) == (ManagerModel {
                classic: Some(
                    old(self).model(old(cells)).attached_heap(
                        old(bus).allocator.heap(old(cells)),
                        old(self).attached(old(bus)),
                    ),
                ),
                classic_limit: Some(old(bus).heap_limit() as u32),
                ..old(self).model(old(cells))
            }),
            old(self).classic_allocator matches Some(heap) ==> final(self).attached_to(heap.id()),
            final(self).classic_owner.id() == old(self).classic_owner.id(),
            final(self).ptr_to_handle.id() == old(self).ptr_to_handle.id(),
            final(self).handle_state_bits.id() == old(self).handle_state_bits.id(),
            final(self).handle_high_locked.id() == old(self).handle_high_locked.id(),
            old(self).heaps_attached(old(bus).allocator.id(), old(cells), final(cells)),
    {
        let owner_id: usize = self.classic_owner.index();
        let bus_allocator = bus.shared_classic_heap_allocator();
        let bus_heap_limit: u32 = bus.classic_heap_limit();
        let bus_is_pristine = bus_allocator.is_pristine(cells);
        bus_allocator.claim_owner(cells, owner_id);
        match &self.classic_allocator {
            Some(allocator) => {
                if allocator.ptr_eq(&bus_allocator) {
                    return;
                }
                if allocator.is_pristine(cells) && !bus_is_pristine {
                    allocator.replace_pristine_state_from(cells, &bus_allocator);
                }
                bus.attach_classic_heap_allocator(allocator);
            },
            None => {
                self.classic_allocator = Some(bus_allocator);
            },
        }
        self.classic_heap_limit = Some(bus_heap_limit);
    }

    pub open spec fn attached_to(&self, heap: int) -> bool {
        self.classic_allocator matches Some(allocator) && allocator.id() == heap
    }

    fn native_allocator_is_pristine(&self, cells: &ManagerCells) -> (pristine: bool)
        ensures
            pristine == self.model(cells).native_pristine(),
    {
        self.native_allocations.len() == 0 && self.native_handle_ptrs.is_empty()
            && self.native_handles.is_empty() && match &self.native_allocator {
            Some(allocator) => allocator.heap == allocator.initial_heap && allocator.ptrs.len() == 0
                && allocator.free_ptr_blocks.len() == 0 && allocator.free_handle_blocks.len() == 0,
            None => true,
        }
    }

    /// Take the application boundary over.
    fn adopt_application_heap_limit(&mut self, cells: &ManagerCells, source: &mut Self)
        requires
            old(self).valid(cells),
            old(source).valid(cells),
        ensures
            old(self).step(cells, final(self), cells),
            old(source).step(cells, final(source), cells),
            final(self).model(cells) == (ManagerModel {
                application_limit: old(self).model(cells).adopted_limit(old(source).model(cells)),
                ..old(self).model(cells)
            }),
            final(source).model(cells) == (ManagerModel {
                application_limit: None,
                ..old(source).model(cells)
            }),
    {
        let source_limit = source.application_heap_limit;
        source.application_heap_limit = None;
        let keep = match self.application_heap_limit {
            None => false,
            Some(limit) => match source.native_heap_state() {
                Some(heap) => limit >= heap.heap_cursor && limit <= heap.heap_limit,
                None => true,
            },
        };
        if !keep {
            self.application_heap_limit = source_limit;
        }
    }

    /// Take the native heap over, where the own one is pristine and the other
    /// one is not or the own one is missing. The other manager is left
    /// without one.
    fn adopt_native_allocator(&mut self, cells: &ManagerCells, source: &mut Self)
        requires
            old(self).valid(cells),
            old(source).valid(cells),
        ensures
            old(self).step(cells, final(self), cells),
            old(source).step(cells, final(source), cells),
            ({
                let target = old(self).model(cells);
                let given = old(source).model(cells);
                final(self).model(cells) == if target.takes_native(given) {
                    ManagerModel {
                        native: given.native,
                        dirty: given.dirty,
                        records: given.records,
                        native_ptrs: given.native_ptrs,
                        native_handles: given.native_handles,
                        ..target
                    }
                } else {
                    target
                }
            }),
            final(source).model(cells) == (ManagerModel {
                native: None,
                dirty: false,
                records: Seq::empty(),
                native_ptrs: Set::empty(),
                native_handles: Set::empty(),
                ..old(source).model(cells)
            }),
    {
        let target_is_pristine = self.native_allocator_is_pristine(cells);
        let source_is_pristine = source.native_allocator_is_pristine(cells);
        let source_supplies_allocator = !source_is_pristine || (self.native_allocator.is_none()
            && source.native_allocator.is_some());
        let mut allocator = None;
        let mut allocations: Vec<ProcessHandleRecord> = Vec::new();
        let mut handle_ptrs: KeySet<u32> = KeySet::new();
        let mut handles: KeySet<u32> = KeySet::new();
        core::mem::swap(&mut allocator, &mut source.native_allocator);
        core::mem::swap(&mut allocations, &mut source.native_allocations);
        core::mem::swap(&mut handle_ptrs, &mut source.native_handle_ptrs);
        core::mem::swap(&mut handles, &mut source.native_handles);
        if target_is_pristine && source_supplies_allocator {
            self.native_allocator = allocator;
            self.native_allocator_dirty = source.native_allocator_dirty;
            self.native_allocations = allocations;
            self.native_handle_ptrs = handle_ptrs;
            self.native_handles = handles;
        }
        source.native_allocator_dirty = false;
    }

    /// Take the classic heap and the handle indexes over.
    fn adopt_handle_metadata(&mut self, cells: &mut ManagerCells, source: &mut Self)
        requires
            old(self).valid(old(cells)),
            old(source).valid(old(cells)),
            old(self).model(old(cells)).can_adopt(old(source).model(old(cells))),
            old(source).native_allocations@.len() == 0,
            old(source).native_handle_ptrs@ == Set::<u32>::empty(),
            old(source).native_handles@ == Set::<u32>::empty(),
        ensures
            final(self).valid(final(cells)),
            final(source).valid(final(cells)),
            final(self).takes_over(old(self), old(source), final(source), final(cells)),
            old(self).only_both_changed(old(source), old(cells), final(cells)),
            final(self).model(final(cells)) == ({
                let target = old(self).model(old(cells));
                let given = old(source).model(old(cells));
                ManagerModel {
                    classic: match given.classic {
                        Some(heap) => Some(target.claimed(heap)),
                        None => target.classic,
                    },
                    classic_limit: if given.classic is Some {
                        given.classic_limit
                    } else {
                        target.classic_limit
                    },
                    ptr_to_handle: target.ptr_to_handle.union_prefer_right(given.ptr_to_handle),
                    states: target.states.union_prefer_right(given.states),
                    high: target.high.union_prefer_right(given.high),
                    ..target
                }
            }),
            final(source).native_allocator == old(source).native_allocator,
            final(source).native_allocations@ == old(source).native_allocations@,
            final(source).native_handle_ptrs@ == old(source).native_handle_ptrs@,
            final(source).native_handles@ == old(source).native_handles@,
            final(source).native_allocator_dirty == old(source).native_allocator_dirty,
            final(source).application_heap_limit == old(source).application_heap_limit,
    {
        let mut taken = None;
        core::mem::swap(&mut taken, &mut source.classic_allocator);
        match taken {
            Some(allocator) => {
                allocator.transfer_owner(
                    cells,
                    source.classic_owner.index(),
                    self.classic_owner.index(),
                );
                self.classic_allocator = Some(allocator);
                self.classic_heap_limit = source.classic_heap_limit;
                source.classic_heap_limit = None;
            },
            None => {},
        }
        self.ptr_to_handle.absorb(&mut cells.handles, &source.ptr_to_handle);
        self.handle_state_bits.absorb(&mut cells.states, &source.handle_state_bits);
        self.handle_high_locked.absorb(&mut cells.flags, &source.handle_high_locked);
    }

    /// From `before` to here the manager kept its own cells and took the
    /// other manager's classic heap, and the other manager's indexes were
    /// emptied, unless the two had them in common.
    pub open spec fn takes_over(
        &self,
        before: &Self,
        source_before: &Self,
        source: &Self,
        cells: &ManagerCells,
    ) -> bool {
        &&& self.classic_owner.id() == before.classic_owner.id()
        &&& self.ptr_to_handle.id() == before.ptr_to_handle.id()
        &&& self.handle_state_bits.id() == before.handle_state_bits.id()
        &&& self.handle_high_locked.id() == before.handle_high_locked.id()
        &&& source_before.classic_allocator matches Some(heap) ==> self.attached_to(heap.id())
        &&& source_before.classic_allocator is None ==> match (
            self.classic_allocator,
            before.classic_allocator,
        ) {
            (Some(kept), Some(heap)) => kept.id() == heap.id(),
            (None, None) => true,
            _ => false,
        }
        &&& source.classic_allocator is None
        &&& source.classic_heap_limit == if source_before.classic_allocator is Some {
            None
        } else {
            source_before.classic_heap_limit
        }
        &&& source.ptr_to_handle.id() == source_before.ptr_to_handle.id()
        &&& source.handle_state_bits.id() == source_before.handle_state_bits.id()
        &&& source.handle_high_locked.id() == source_before.handle_high_locked.id()
        &&& source.ptr_to_handle.id() != self.ptr_to_handle.id() ==> source.ptr_to_handle.entries(
            &cells.handles,
        ) == Map::<u32, u32>::empty()
        &&& source.handle_state_bits.id() != self.handle_state_bits.id()
            ==> source.handle_state_bits.entries(&cells.states) == Map::<u32, u8>::empty()
        &&& source.handle_high_locked.id() != self.handle_high_locked.id()
            ==> source.handle_high_locked.entries(&cells.flags) == Map::<u32, bool>::empty()
    }

    /// No cell changed but those of the two managers.
    pub open spec fn only_both_changed(
        &self,
        source: &Self,
        before: &ManagerCells,
        after: &ManagerCells,
    ) -> bool {
        &&& after.owners@ == before.owners@
        &&& after.heaps@.len() == before.heaps@.len()
        &&& forall|i: int|
            0 <= i < before.heaps@.len() && !self.attached_to(i) && !source.attached_to(i)
                ==> #[trigger] after.heaps@[i] == before.heaps@[i]
        &&& after.handles@.len() == before.handles@.len()
        &&& forall|i: int|
            0 <= i < before.handles@.len() && i != self.ptr_to_handle.id() && i
                != source.ptr_to_handle.id() ==> #[trigger] after.handles@[i] == before.handles@[i]
        &&& after.states@.len() == before.states@.len()
        &&& forall|i: int|
            0 <= i < before.states@.len() && i != self.handle_state_bits.id() && i
                != source.handle_state_bits.id() ==> #[trigger] after.states@[i]
                == before.states@[i]
        &&& after.flags@.len() == before.flags@.len()
        &&& forall|i: int|
            0 <= i < before.flags@.len() && i != self.handle_high_locked.id() && i
                != source.handle_high_locked.id() ==> #[trigger] after.flags@[i]
                == before.flags@[i]
    }

    /// Take everything over that another manager holds. The other manager is
    /// left without heaps and, unless the two shared them, without indexes.
    pub fn adopt_process_memory_manager(&mut self, cells: &mut ManagerCells, source: &mut Self)
        requires
            old(self).valid(old(cells)),
            old(source).valid(old(cells)),
            old(self).model(old(cells)).can_adopt(old(source).model(old(cells))),
        ensures
            final(self).valid(final(cells)),
            final(source).valid(final(cells)),
            final(self).takes_over(old(self), old(source), final(source), final(cells)),
            old(self).only_both_changed(old(source), old(cells), final(cells)),
            final(self).model(final(cells)) == old(self).model(old(cells)).adopted(
                old(source).model(old(cells)),
            ),
            final(source).native_allocator is None,
            !final(source).native_allocator_dirty,
            final(source).native_allocations@.len() == 0,
            final(source).native_handle_ptrs@ == Set::<u32>::empty(),
            final(source).native_handles@ == Set::<u32>::empty(),
            final(source).application_heap_limit is None,
    {
        self.adopt_application_heap_limit(cells, source);
        self.adopt_native_allocator(cells, source);
        self.adopt_handle_metadata(cells, source);
    }
}

/// What one manager does leaves a manager without common cells as it is.
pub proof fn separate_managers_do_not_interfere(
    manager: &ProcessNativeMemoryManager,
    before: &ManagerCells,
    after_manager: &ProcessNativeMemoryManager,
    after: &ManagerCells,
    other: &ProcessNativeMemoryManager,
)
    requires
        manager.valid(before),
        other.valid(before),
        manager.separate(other),
        manager.step(before, after_manager, after),
    ensures
        other.valid(after),
        other.model(after) == other.model(before),
        after_manager.separate(other),
{
}

/// Restoring a detached copy brings back everything but the identity under
/// which heaps are claimed.
pub proof fn restored_copy_is_the_original(manager: ManagerModel, copy_owner: int, changed: ManagerModel)
    requires
        changed.owner == manager.owner,
        match (changed.classic, manager.classic) {
            (Some(now), Some(then)) => now.owner == then.owner,
            (None, None) => true,
            _ => false,
        },
    ensures
        changed.restored(
            ManagerModel {
                owner: copy_owner,
                classic: match manager.classic {
                    Some(heap) => Some(HeapModel { owner: Some(copy_owner as usize), ..heap }),
                    None => None,
                },
                ..manager
            },
        ) == manager,
{
}

} // verus!
