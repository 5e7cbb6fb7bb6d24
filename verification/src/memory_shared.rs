//! Handles to the Memory Manager of a process.

use crate::cells::{SharedCells, SharedProcessValue};
use crate::memory_manager::{ManagerCells, ProcessNativeMemoryManager};
use crate::memory_model::{ManagerModel, LOCKED_BIT};
use crate::process_map::SharedProcessMap;
use vstd::prelude::*;

verus! {

/// A handle to one process's Memory Manager. The indexes of its handles can
/// be used while the manager itself is busy.
pub struct SharedProcessMemoryManager {
    pub manager: SharedProcessValue<ProcessNativeMemoryManager>,
    /// The handle of each master pointer.
    pub ptr_to_handle: SharedProcessMap<u32>,
    /// Lock, purge and resource bits of each handle.
    pub handle_state_bits: SharedProcessMap<u8>,
    /// Whether a locked block stands at the top of the heap.
    pub handle_high_locked: SharedProcessMap<bool>,
}

impl SharedProcessMemoryManager {
    pub open spec fn id(&self) -> int {
        self.manager.id()
    }

    /// The manager that the handle observes.
    pub open spec fn state(&self, managers: &SharedCells<ProcessNativeMemoryManager>) -> ProcessNativeMemoryManager {
        managers@[self.manager.id()]
    }

    /// The handle names a manager and the indexes of that manager.
    pub open spec fn valid(
        &self,
        managers: &SharedCells<ProcessNativeMemoryManager>,
        cells: &ManagerCells,
    ) -> bool {
        &&& self.manager.valid(managers@)
        &&& self.state(managers).valid(cells)
        &&& self.ptr_to_handle.id() == self.state(managers).ptr_to_handle.id()
        &&& self.handle_state_bits.id() == self.state(managers).handle_state_bits.id()
        &&& self.handle_high_locked.id() == self.state(managers).handle_high_locked.id()
    }

    /// What the manager holds.
    pub open spec fn model(
        &self,
        managers: &SharedCells<ProcessNativeMemoryManager>,
        cells: &ManagerCells,
    ) -> ManagerModel {
        self.state(managers).model(cells)
    }

    /// Nothing was allocated, and no heap or limit was set.
    pub open spec fn unused(
        &self,
        managers: &SharedCells<ProcessNativeMemoryManager>,
        cells: &ManagerCells,
    ) -> bool {
        let model = self.model(managers, cells);
        &&& model.records.len() == 0
        &&& model.ptr_to_handle == Map::<u32, u32>::empty()
        &&& model.states == Map::<u32, u8>::empty()
        &&& model.high == Map::<u32, bool>::empty()
        &&& model.native is None
        &&& model.native_ptrs == Set::<u32>::empty()
        &&& model.native_handles == Set::<u32>::empty()
        &&& !model.dirty
        &&& model.application_limit is None
        &&& model.classic is None
        &&& model.classic_limit is None
    }

    /// Share a manager.
    pub fn from_manager(
        managers: &mut SharedCells<ProcessNativeMemoryManager>,
        cells: &ManagerCells,
        manager: ProcessNativeMemoryManager,
    ) -> (handle: Self)
        requires
            manager.valid(cells),
        ensures
            handle.id() == old(managers)@.len(),
            final(managers)@ == old(managers)@.push(manager),
            handle.valid(final(managers), cells),
    {
        let ptr_to_handle = manager.ptr_to_handle.shared_handle();
        let handle_state_bits = manager.handle_state_bits.shared_handle();
        let handle_high_locked = manager.handle_high_locked.shared_handle();
        SharedProcessMemoryManager {
            manager: managers.allocate(manager),
            ptr_to_handle,
            handle_state_bits,
            handle_high_locked,
        }
    }

    /// A handle to a new manager without allocations.
    pub fn new(managers: &mut SharedCells<ProcessNativeMemoryManager>, cells: &mut ManagerCells) -> (
    handle: Self)
        requires
            old(cells).sized(),
        ensures
            handle.id() == old(managers)@.len(),
            handle.valid(final(managers), final(cells)),
            final(managers)@.len() == old(managers)@.len() + 1,
            crate::cells::cells_extend(old(managers)@, final(managers)@),
            handle.unused(final(managers), final(cells)),
            old(cells).extended_by(final(cells)),
    {
        let manager = ProcessNativeMemoryManager::new(cells);
        SharedProcessMemoryManager::from_manager(managers, cells, manager)
    }

    /// Another handle to the same manager.
    pub fn shared_handle(&self) -> (handle: Self)
        ensures
            handle.id() == self.id(),
            handle.ptr_to_handle.id() == self.ptr_to_handle.id(),
            handle.handle_state_bits.id() == self.handle_state_bits.id(),
            handle.handle_high_locked.id() == self.handle_high_locked.id(),
    {
        SharedProcessMemoryManager {
            manager: self.manager.shared_handle(),
            ptr_to_handle: self.ptr_to_handle.shared_handle(),
            handle_state_bits: self.handle_state_bits.shared_handle(),
            handle_high_locked: self.handle_high_locked.shared_handle(),
        }
    }

    /// Whether two handles name one manager.
    pub fn ptr_eq(&self, other: &Self) -> (same: bool)
        ensures
            same == (self.id() == other.id()),
    {
        self.manager.ptr_eq(&other.manager)
    }

    /// Whether the manager has a native heap.
    pub fn has_native_allocator(
        &self,
        managers: &SharedCells<ProcessNativeMemoryManager>,
        cells: &ManagerCells,
    ) -> (present: bool)
        requires
            self.valid(managers, cells),
        ensures
            present == (self.model(managers, cells).native is Some),
    {
        managers.get(&self.manager).native_allocator.is_some()
    }

    /// Note the handle of a master pointer; the result is the one before.
    pub fn track_handle_ptr(
        &self,
        managers: &SharedCells<ProcessNativeMemoryManager>,
        cells: &mut ManagerCells,
        ptr: u32,
        handle: u32,
    ) -> (previous: Option<u32>)
        requires
            self.valid(managers, old(cells)),
        ensures
            self.valid(managers, final(cells)),
            crate::memory_manager::cells_step(&self.state(managers), old(cells), final(cells)),
            previous == crate::process_map::map_get(
                self.model(managers, old(cells)).ptr_to_handle,
                ptr,
            ),
            self.model(managers, final(cells)) == (ManagerModel {
                ptr_to_handle: self.model(managers, old(cells)).ptr_to_handle.insert(ptr, handle),
                ..self.model(managers, old(cells))
            }),
    {
        self.ptr_to_handle.insert(&mut cells.handles, ptr, handle)
    }

    /// Forget the handle of a master pointer; the result is what it was.
    pub fn untrack_handle_ptr(
        &self,
        managers: &SharedCells<ProcessNativeMemoryManager>,
        cells: &mut ManagerCells,
        ptr: u32,
    ) -> (previous: Option<u32>)
        requires
            self.valid(managers, old(cells)),
        ensures
            self.valid(managers, final(cells)),
            crate::memory_manager::cells_step(&self.state(managers), old(cells), final(cells)),
            previous == crate::process_map::map_get(
                self.model(managers, old(cells)).ptr_to_handle,
                ptr,
            ),
            self.model(managers, final(cells)) == (ManagerModel {
                ptr_to_handle: self.model(managers, old(cells)).ptr_to_handle.remove(ptr),
                ..self.model(managers, old(cells))
            }),
    {
        self.ptr_to_handle.remove(&mut cells.handles, ptr)
    }

    /// The handle of a master pointer.
    pub fn handle_for_ptr(
        &self,
        managers: &SharedCells<ProcessNativeMemoryManager>,
        cells: &ManagerCells,
        ptr: u32,
    ) -> (handle: Option<u32>)
        requires
            self.valid(managers, cells),
        ensures
            handle == crate::process_map::map_get(self.model(managers, cells).ptr_to_handle, ptr),
    {
        self.ptr_to_handle.get(&cells.handles, ptr)
    }

    pub fn has_handle_ptr(
        &self,
        managers: &SharedCells<ProcessNativeMemoryManager>,
        cells: &ManagerCells,
        ptr: u32,
    ) -> (present: bool)
        requires
            self.valid(managers, cells),
        ensures
            present == self.model(managers, cells).ptr_to_handle.dom().contains(ptr),
    {
        self.ptr_to_handle.contains_key(&cells.handles, ptr)
    }

    /// Set the state of a handle. A block that is not locked is not locked
    /// high; the null handle has no state.
    pub fn set_handle_state(
        &self,
        managers: &SharedCells<ProcessNativeMemoryManager>,
        cells: &mut ManagerCells,
        handle: u32,
        state: u8,
    )
        requires
            self.valid(managers, old(cells)),
        ensures
            self.valid(managers, final(cells)),
            crate::memory_manager::cells_step(&self.state(managers), old(cells), final(cells)),
            self.model(managers, final(cells)) == (if handle == 0 {
                self.model(managers, old(cells))
            } else {
                ManagerModel {
                    states: self.model(managers, old(cells)).states.insert(handle, state),
                    high: if state & LOCKED_BIT == 0 {
                        self.model(managers, old(cells)).high.remove(handle)
                    } else {
                        self.model(managers, old(cells)).high
                    },
                    ..self.model(managers, old(cells))
                }
            }),
    {
        if handle != 0 {
            let _ = self.handle_state_bits.insert(&mut cells.states, handle, state);
            if state & LOCKED_BIT == 0 {
                let _ = self.handle_high_locked.remove(&mut cells.flags, handle);
            }
        }
    }

    /// Forget the state of a handle; the result is what it was.
    pub fn remove_handle_state(
        &self,
        managers: &SharedCells<ProcessNativeMemoryManager>,
        cells: &mut ManagerCells,
        handle: u32,
    ) -> (previous: Option<u8>)
        requires
            self.valid(managers, old(cells)),
        ensures
            self.valid(managers, final(cells)),
            crate::memory_manager::cells_step(&self.state(managers), old(cells), final(cells)),
            previous == crate::process_map::map_get(
                self.model(managers, old(cells)).states,
                handle,
            ),
            self.model(managers, final(cells)) == (ManagerModel {
                states: self.model(managers, old(cells)).states.remove(handle),
                high: self.model(managers, old(cells)).high.remove(handle),
                ..self.model(managers, old(cells))
            }),
    {
        let _ = self.handle_high_locked.remove(&mut cells.flags, handle);
        self.handle_state_bits.remove(&mut cells.states, handle)
    }

    /// The state of a handle, where it was set.
    pub fn handle_state(
        &self,
        managers: &SharedCells<ProcessNativeMemoryManager>,
        cells: &ManagerCells,
        handle: u32,
    ) -> (state: Option<u8>)
        requires
            self.valid(managers, cells),
        ensures
            state == crate::process_map::map_get(self.model(managers, cells).states, handle),
    {
        self.handle_state_bits.get(&cells.states, handle)
    }

    /// Recompute the state of a handle; `None` forgets it. A block that is
    /// not locked afterwards is not locked high.
    pub fn update_handle_state(
        &self,
        managers: &SharedCells<ProcessNativeMemoryManager>,
        cells: &mut ManagerCells,
        handle: u32,
        update: impl FnOnce(Option<u8>) -> Option<u8>,
    )
        requires
            self.valid(managers, old(cells)),
            call_requires(
                update,
                (crate::process_map::map_get(self.model(managers, old(cells)).states, handle),),
            ),
        ensures
            self.valid(managers, final(cells)),
            crate::memory_manager::cells_step(&self.state(managers), old(cells), final(cells)),
            exists|updated: Option<u8>| #[trigger]
                call_ensures(
                    update,
                    (crate::process_map::map_get(self.model(managers, old(cells)).states, handle),),
                    updated,
                ) && self.model(managers, final(cells)) == (ManagerModel {
                    states: match updated {
                        Some(state) => self.model(managers, old(cells)).states.insert(
                            handle,
                            state,
                        ),
                        None => self.model(managers, old(cells)).states.remove(handle),
                    },
                    high: match updated {
                        Some(state) => if state & LOCKED_BIT == 0 {
                            self.model(managers, old(cells)).high.remove(handle)
                        } else {
                            self.model(managers, old(cells)).high
                        },
                        None => self.model(managers, old(cells)).high.remove(handle),
                    },
                    ..self.model(managers, old(cells))
                }),
    {
        let current = self.handle_state_bits.get(&cells.states, handle);
        let updated = update(current);
        match updated {
            Some(state) => {
                let _ = self.handle_state_bits.insert(&mut cells.states, handle, state);
                if state & LOCKED_BIT == 0 {
                    let _ = self.handle_high_locked.remove(&mut cells.flags, handle);
                }
            },
            None => {
                let _ = self.handle_state_bits.remove(&mut cells.states, handle);
                let _ = self.handle_high_locked.remove(&mut cells.flags, handle);
            },
        }
    }

    pub fn has_handle_state(
        &self,
        managers: &SharedCells<ProcessNativeMemoryManager>,
        cells: &ManagerCells,
        handle: u32,
    ) -> (present: bool)
        requires
            self.valid(managers, cells),
        ensures
            present == self.model(managers, cells).states.dom().contains(handle),
    {
        self.handle_state_bits.contains_key(&cells.states, handle)
    }

    /// A copy of the manager that evolves by itself.
    pub fn detached_clone(
        &self,
        managers: &mut SharedCells<ProcessNativeMemoryManager>,
        cells: &mut ManagerCells,
    ) -> (copy: Self)
        requires
            self.valid(old(managers), old(cells)),
        ensures
            copy.id() == old(managers)@.len(),
            crate::cells::cells_extend(old(managers)@, final(managers)@),
            final(managers)@.len() == old(managers)@.len() + 1,
            old(cells).extended_by(final(cells)),
            self.valid(final(managers), final(cells)),
            copy.valid(final(managers), final(cells)),
            copy.state(final(managers)).separate(&self.state(old(managers))),
            copy.model(final(managers), final(cells)) == self.model(
                old(managers),
                old(cells),
            ).owned_by(old(cells).owners@.len() as int),
    {
        let manager = managers.get(&self.manager).detached_clone(cells);
        SharedProcessMemoryManager::from_manager(managers, cells, manager)
    }
}

impl ManagerModel {
    /// The same manager under another owner, with its classic heap.
    pub open spec fn owned_by(self, owner: int) -> ManagerModel {
        ManagerModel {
            owner,
            classic: match self.classic {
                Some(heap) => Some(
                    crate::classic_heap::HeapModel { owner: Some(owner as usize), ..heap },
                ),
                None => None,
            },
            ..self
        }
    }
}

} // verus!
