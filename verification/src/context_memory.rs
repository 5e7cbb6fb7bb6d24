//! Operations of a process on its classic heap and its open menu.

use crate::classic_heap::CLASSIC_HEAP_BASE;
use crate::execution::ProcessMenuTrackingState;
use crate::process_context::{ProcessCells, ProcessContext};
use vstd::prelude::*;

verus! {

impl ProcessContext {
    /// Only the process's Memory Manager changed, in cells of its own.
    pub open spec fn memory_step(&self, before: &ProcessCells, after: &ProcessCells) -> bool {
        &&& crate::cells::only_cell_changed(
            before.managers@,
            after.managers@,
            self.memory_manager.id(),
        )
        &&& self.memory_manager.state(&before.managers).step(
            &before.memory,
            &self.memory_manager.state(&after.managers),
            &after.memory,
        )
        &&& *after == (ProcessCells {
            memory: after.memory,
            managers: after.managers,
            ..*before
        })
    }

    /// The cursor of the classic heap, from which launch sets up partitions.
    pub fn classic_heap_bump_ptr(&self, cells: &ProcessCells) -> (cursor: u32)
        requires
            self.valid(cells),
            self.memory_manager.model(&cells.managers, &cells.memory).classic is Some,
        ensures
            cursor == self.memory_manager.model(
                &cells.managers,
                &cells.memory,
            ).classic->0.heap_ptr,
    {
        cells.managers.get(&self.memory_manager.manager).classic_heap_bump_ptr(&cells.memory)
    }

    /// Keep the zone header at the start of the classic heap clear.
    pub fn reserve_classic_heap(&self, cells: &mut ProcessCells, size: u32)
        requires
            self.valid(old(cells)),
            self.memory_manager.model(&old(cells).managers, &old(cells).memory).classic is Some,
            CLASSIC_HEAP_BASE + crate::classic_heap::round_up(size as int, 4) + 3 <= u32::MAX,
        ensures
            self.valid(final(cells)),
            self.memory_manager.model(&final(cells).managers, &final(cells).memory)
                == self.memory_manager.model(
                &old(cells).managers,
                &old(cells).memory,
            ).with_heap(
                self.memory_manager.model(
                    &old(cells).managers,
                    &old(cells).memory,
                ).classic->0.reserve_until(
                    (CLASSIC_HEAP_BASE + crate::classic_heap::round_up(size as int, 4)) as u32,
                ),
            ),
            self.memory_step(old(cells), final(cells)),
    {
        cells.managers.get_mut(&self.memory_manager.manager).reserve_classic_heap(
            &mut cells.memory,
            size,
        );
    }

    /// Keep the span of directly loaded code out of later classic allocations.
    pub fn reserve_classic_heap_range(
        &self,
        cells: &mut ProcessCells,
        start_addr: u32,
        end_addr: u32,
    )
        requires
            self.valid(old(cells)),
            self.memory_manager.model(&old(cells).managers, &old(cells).memory).classic is Some,
        ensures
            self.valid(final(cells)),
            self.memory_manager.model(&final(cells).managers, &final(cells).memory)
                == self.memory_manager.model(
                &old(cells).managers,
                &old(cells).memory,
            ).with_heap(
                self.memory_manager.model(
                    &old(cells).managers,
                    &old(cells).memory,
                ).classic->0.reserve_range(start_addr, end_addr),
            ),
            self.memory_step(old(cells), final(cells)),
    {
        cells.managers.get_mut(&self.memory_manager.manager).reserve_classic_heap_range(
            &mut cells.memory,
            start_addr,
            end_addr,
        );
    }

    /// Note when the open menu was last drawn; without one nothing changes.
    pub fn set_menu_presentation_tick(&self, cells: &mut ProcessCells, tick: u32)
        requires
            self.valid(old(cells)),
        ensures
            self.valid(final(cells)),
            self.menu_tracking.menu(&final(cells).executions) == match self.menu_tracking.menu(
                &old(cells).executions,
            ) {
                Some(open) => Some(
                    ProcessMenuTrackingState { flash_tick: Some(tick), ..open },
                ),
                None => None,
            },
            final(cells).executions@[self.guest_calls.id()].calls == old(
                cells,
            ).executions@[self.guest_calls.id()].calls,
            crate::cells::only_cell_changed(
                old(cells).executions@,
                final(cells).executions@,
                self.guest_calls.id(),
            ),
            *final(cells) == (ProcessCells { executions: final(cells).executions, ..*old(cells) }),
    {
        match cells.executions.get(&self.menu_tracking.cell).menu {
            Some(open) => {
                let redrawn = ProcessMenuTrackingState { flash_tick: Some(tick), ..open };
                cells.executions.get_mut(&self.menu_tracking.cell).menu = Some(redrawn);
            },
            None => {},
        }
    }
}

} // verus!
