//! Moving the clock and the calls of an adapter into a process.

use crate::execution::{ExecutionMenuViews, SharedGuestCallStack};
use crate::process_context::{ProcessCells, ProcessContext};
use crate::ticks::SharedProcessTickState;
use vstd::prelude::*;

verus! {

/// Handles to the clock and the calls of a process.
pub struct MigratedProcessHandles {
    pub ticks: SharedProcessTickState,
    pub execution: SharedGuestCallStack,
}

/// Which of the two services cannot be adopted.
#[derive(Clone, Copy, Debug, PartialEq, Eq, Structural)]
pub enum MigratedServiceConflict {
    Ticks,
    Execution,
}

/// How the clock of an adapter is adopted.
pub enum TickAdoption {
    /// The adapter has the process's clock already.
    AlreadyShared { process: SharedProcessTickState, expected_process_tick: u32 },
    /// The adapter has a clock of its own.
    DetachedSeed {
        process: SharedProcessTickState,
        adapter: SharedProcessTickState,
        adapter_seed: u32,
        expected_process_tick: u32,
    },
}

/// How the calls of an adapter are adopted.
pub enum ExecutionAdoption {
    /// The adapter has the process's calls already.
    AlreadyShared { process: SharedGuestCallStack },
    /// The adapter has calls of its own.
    Detached {
        process: SharedGuestCallStack,
        adapter: SharedGuestCallStack,
        process_pristine: bool,
        adapter_pristine: bool,
    },
}

/// A plan by which both services can be adopted together.
pub struct MigratedServiceAdoption {
    pub ticks: TickAdoption,
    pub execution: ExecutionAdoption,
}

/// The adapter's clock cannot join the process's: both have started, at
/// different counts.
pub open spec fn ticks_conflict(
    shared: bool,
    adapter_tick: u32,
    expected_process_tick: u32,
) -> bool {
    !shared && adapter_tick != 0 && expected_process_tick != 0 && adapter_tick
        != expected_process_tick
}

impl TickAdoption {
    /// What the plan says still holds.
    pub open spec fn current(
        &self,
        process_tick: &SharedProcessTickState,
        adapter_tick: &SharedProcessTickState,
        cells: &ProcessCells,
    ) -> bool {
        match *self {
            TickAdoption::AlreadyShared { process, expected_process_tick } => {
                &&& process.id() == process_tick.id()
                &&& process.id() == adapter_tick.id()
                &&& process_tick.tick(&cells.ticks) == expected_process_tick
            },
            TickAdoption::DetachedSeed { process, adapter, adapter_seed, expected_process_tick } => {
                &&& process.id() == process_tick.id()
                &&& adapter.id() == adapter_tick.id()
                &&& process.id() != adapter.id()
                &&& process_tick.tick(&cells.ticks) == expected_process_tick
                &&& adapter_tick.tick(&cells.ticks) == adapter_seed
            },
        }
    }

    /// The count that the process starts from, where the plan gives it one.
    pub open spec fn seed(&self) -> Option<u32> {
        match *self {
            TickAdoption::AlreadyShared { .. } => None,
            TickAdoption::DetachedSeed { adapter_seed, expected_process_tick, .. } => if expected_process_tick
                == 0 && adapter_seed != 0 {
                Some(adapter_seed)
            } else {
                None
            },
        }
    }

    /// Whether what the plan says still holds.
    pub fn validate(
        &self,
        process_tick: &SharedProcessTickState,
        adapter_tick: &SharedProcessTickState,
        cells: &ProcessCells,
    ) -> (current: bool)
        requires
            process_tick.valid(&cells.ticks),
            adapter_tick.valid(&cells.ticks),
        ensures
            current == self.current(process_tick, adapter_tick, cells),
    {
        match self {
            TickAdoption::AlreadyShared { process, expected_process_tick } => {
                process.ptr_eq(process_tick) && process.ptr_eq(adapter_tick)
                    && process_tick.current_tick(&cells.ticks) == *expected_process_tick
            },
            TickAdoption::DetachedSeed { process, adapter, adapter_seed, expected_process_tick } => {
                process.ptr_eq(process_tick) && adapter.ptr_eq(adapter_tick) && !process.ptr_eq(
                    adapter,
                ) && process_tick.current_tick(&cells.ticks) == *expected_process_tick
                    && adapter_tick.current_tick(&cells.ticks) == *adapter_seed
            },
        }
    }
}

impl ExecutionAdoption {
    /// What the plan says still holds.
    pub open spec fn current(
        &self,
        process_calls: &SharedGuestCallStack,
        adapter: &ExecutionMenuViews,
        cells: &ProcessCells,
    ) -> bool {
        &&& adapter.coherent()
        &&& match *self {
            ExecutionAdoption::AlreadyShared { process } => {
                &&& process.id() == process_calls.id()
                &&& process.id() == adapter.calls.id()
            },
            ExecutionAdoption::Detached {
                process,
                adapter: expected_adapter,
                process_pristine,
                adapter_pristine,
            } => {
                &&& process.id() == process_calls.id()
                &&& expected_adapter.id() == adapter.calls.id()
                &&& process.id() != expected_adapter.id()
                &&& process_calls.value(&cells.executions).pristine() == process_pristine
                &&& adapter.calls.value(&cells.executions).pristine() == adapter_pristine
            },
        }
    }

    /// At most one of the two has calls or a menu.
    pub open spec fn possible(&self) -> bool {
        match *self {
            ExecutionAdoption::AlreadyShared { .. } => true,
            ExecutionAdoption::Detached { process_pristine, adapter_pristine, .. } => {
                process_pristine || adapter_pristine
            },
        }
    }

    /// Whether what the plan says still holds.
    pub fn validate(
        &self,
        process_calls: &SharedGuestCallStack,
        adapter: &ExecutionMenuViews,
        cells: &ProcessCells,
    ) -> (current: bool)
        requires
            process_calls.valid(&cells.executions),
            adapter.calls.valid(&cells.executions),
        ensures
            current == self.current(process_calls, adapter, cells),
    {
        if !adapter.is_coherent() {
            return false;
        }
        match self {
            ExecutionAdoption::AlreadyShared { process } => {
                process.ptr_eq(process_calls) && process.ptr_eq(adapter.calls())
            },
            ExecutionAdoption::Detached {
                process,
                adapter: expected_adapter,
                process_pristine,
                adapter_pristine,
            } => {
                process.ptr_eq(process_calls) && expected_adapter.ptr_eq(adapter.calls())
                    && !process.ptr_eq(expected_adapter) && process_calls.is_pristine(
                    &cells.executions,
                ) == *process_pristine && adapter.calls.is_pristine(&cells.executions)
                    == *adapter_pristine
            },
        }
    }
}

impl MigratedServiceAdoption {
    /// What the plan says of both services still holds.
    pub open spec fn current(
        &self,
        context: &ProcessContext,
        adapter_tick: &SharedProcessTickState,
        adapter_execution: &ExecutionMenuViews,
        cells: &ProcessCells,
    ) -> bool {
        &&& self.ticks.current(&context.tick_state, adapter_tick, cells)
        &&& self.execution.current(&context.guest_calls, adapter_execution, cells)
        &&& self.execution.possible()
    }
}

impl ProcessContext {
    /// Handles to the clock and the calls of the process.
    pub fn migrated_handles(&self) -> (handles: MigratedProcessHandles)
        ensures
            handles.ticks.id() == self.tick_state.id(),
            handles.execution.id() == self.guest_calls.id(),
    {
        MigratedProcessHandles {
            ticks: self.tick_state.shared_handle(),
            execution: self.guest_calls.shared_handle(),
        }
    }

    /// Plan the adoption of an adapter's clock and calls, at a moment when the
    /// process's clock will show `expected_process_tick_at_commit`. Nothing
    /// changes yet.
    pub fn preflight_migrated_adoption(
        &self,
        cells: &ProcessCells,
        adapter_tick: &SharedProcessTickState,
        adapter_execution: &ExecutionMenuViews,
        expected_process_tick_at_commit: u32,
    ) -> (plan: Result<MigratedServiceAdoption, MigratedServiceConflict>)
        requires
            self.valid(cells),
            adapter_tick.valid(&cells.ticks),
            adapter_execution.valid(&cells.executions),
        ensures
            ({
                let no_ticks = ticks_conflict(
                    adapter_tick.id() == self.tick_state.id(),
                    adapter_tick.tick(&cells.ticks),
                    expected_process_tick_at_commit,
                );
                let no_execution = adapter_execution.calls.id() != self.guest_calls.id()
                    && !self.guest_calls.value(&cells.executions).pristine()
                    && !adapter_execution.calls.value(&cells.executions).pristine();
                match plan {
                    Ok(adoption) => {
                        &&& !no_ticks
                        &&& !no_execution
                        &&& adoption.execution.current(&self.guest_calls, adapter_execution, cells)
                        &&& adoption.execution.possible()
                        &&& match adoption.ticks {
                            TickAdoption::AlreadyShared { process, expected_process_tick } => {
                                &&& adapter_tick.id() == self.tick_state.id()
                                &&& process.id() == self.tick_state.id()
                                &&& expected_process_tick == expected_process_tick_at_commit
                            },
                            TickAdoption::DetachedSeed {
                                process,
                                adapter,
                                adapter_seed,
                                expected_process_tick,
                            } => {
                                &&& adapter_tick.id() != self.tick_state.id()
                                &&& process.id() == self.tick_state.id()
                                &&& adapter.id() == adapter_tick.id()
                                &&& adapter_seed == adapter_tick.tick(&cells.ticks)
                                &&& expected_process_tick == expected_process_tick_at_commit
                            },
                        }
                    },
                    Err(MigratedServiceConflict::Ticks) => no_ticks,
                    Err(MigratedServiceConflict::Execution) => !no_ticks && no_execution,
                }
            }),
    {
        let ticks = if adapter_tick.ptr_eq(&self.tick_state) {
            TickAdoption::AlreadyShared {
                process: self.tick_state.shared_handle(),
                expected_process_tick: expected_process_tick_at_commit,
            }
        } else {
            let adapter_seed: u32 = adapter_tick.current_tick(&cells.ticks);
            if adapter_seed != 0 && expected_process_tick_at_commit != 0 && adapter_seed
                != expected_process_tick_at_commit {
                return Err(MigratedServiceConflict::Ticks);
            }
            TickAdoption::DetachedSeed {
                process: self.tick_state.shared_handle(),
                adapter: adapter_tick.shared_handle(),
                adapter_seed,
                expected_process_tick: expected_process_tick_at_commit,
            }
        };
        let execution = if adapter_execution.calls().ptr_eq(&self.guest_calls) {
            ExecutionAdoption::AlreadyShared { process: self.guest_calls.shared_handle() }
        } else {
            let process_pristine = self.guest_calls.is_pristine(&cells.executions);
            let adapter_pristine = adapter_execution.calls.is_pristine(&cells.executions);
            if !process_pristine && !adapter_pristine {
                return Err(MigratedServiceConflict::Execution);
            }
            ExecutionAdoption::Detached {
                process: self.guest_calls.shared_handle(),
                adapter: adapter_execution.calls.shared_handle(),
                process_pristine,
                adapter_pristine,
            }
        };
        Ok(MigratedServiceAdoption { ticks, execution })
    }

    /// Whether a plan can be carried out as it stands.
    pub fn adoption_is_current(
        &self,
        cells: &ProcessCells,
        plan: &MigratedServiceAdoption,
        adapter_tick: &SharedProcessTickState,
        adapter_execution: &ExecutionMenuViews,
    ) -> (current: bool)
        requires
            self.valid(cells),
            adapter_tick.valid(&cells.ticks),
            adapter_execution.calls.valid(&cells.executions),
        ensures
            current == (plan.ticks.current(&self.tick_state, adapter_tick, cells)
                && plan.execution.current(&self.guest_calls, adapter_execution, cells)),
    {
        plan.ticks.validate(&self.tick_state, adapter_tick, cells) && plan.execution.validate(
            &self.guest_calls,
            adapter_execution,
            cells,
        )
    }

    /// Carry out a plan. The adapter uses the process's clock and calls from
    /// here on; a process that had not started takes the adapter's over.
    pub fn commit_migrated_adoption(
        &self,
        cells: &mut ProcessCells,
        plan: MigratedServiceAdoption,
        adapter_tick: &mut SharedProcessTickState,
        adapter_execution: &mut ExecutionMenuViews,
    )
        requires
            self.valid(old(cells)),
            old(adapter_tick).valid(&old(cells).ticks),
            old(adapter_execution).valid(&old(cells).executions),
            plan.current(self, old(adapter_tick), old(adapter_execution), old(cells)),
        ensures
            self.valid(final(cells)),
            final(adapter_tick).id() == self.tick_state.id(),
            final(adapter_execution).calls.id() == self.guest_calls.id(),
            final(adapter_execution).coherent(),
            final(cells).ticks@ == (match plan.ticks.seed() {
                Some(seed) => old(cells).ticks@.update(self.tick_state.id(), seed),
                None => old(cells).ticks@,
            }),
            crate::cells::joined(
                old(cells).executions@,
                final(cells).executions@,
                old(adapter_execution).calls.id(),
                self.guest_calls.id(),
                self.guest_calls.value(&old(cells).executions).pristine(),
            ),
            *final(cells) == (ProcessCells {
                ticks: final(cells).ticks,
                executions: final(cells).executions,
                ..*old(cells)
            }),
    {
        match plan.ticks {
            TickAdoption::AlreadyShared { .. } => {},
            TickAdoption::DetachedSeed { adapter_seed, expected_process_tick, .. } => {
                if expected_process_tick == 0 && adapter_seed != 0 {
                    self.tick_state.set_tick(&mut cells.ticks, adapter_seed);
                }
                *adapter_tick = self.tick_state.shared_handle();
            },
        }
        match plan.execution {
            ExecutionAdoption::AlreadyShared { .. } => {},
            ExecutionAdoption::Detached { .. } => {
                adapter_execution.install_process_calls(&mut cells.executions, &self.guest_calls);
            },
        }
    }
}

/// A plan made by the preflight can be carried out as long as the clock shows
/// what was expected and nothing else has changed: what the preflight
/// promises is all that the commit asks for.
pub proof fn fresh_plan_can_be_committed(
    context: &ProcessContext,
    plan: MigratedServiceAdoption,
    adapter_tick: &SharedProcessTickState,
    adapter_execution: &ExecutionMenuViews,
    expected: u32,
    cells: &ProcessCells,
)
    requires
        context.tick_state.tick(&cells.ticks) == expected,
        plan.execution.current(&context.guest_calls, adapter_execution, cells),
        plan.execution.possible(),
        match plan.ticks {
            TickAdoption::AlreadyShared { process, expected_process_tick } => {
                &&& adapter_tick.id() == context.tick_state.id()
                &&& process.id() == context.tick_state.id()
                &&& expected_process_tick == expected
            },
            TickAdoption::DetachedSeed { process, adapter, adapter_seed, expected_process_tick } => {
                &&& adapter_tick.id() != context.tick_state.id()
                &&& process.id() == context.tick_state.id()
                &&& adapter.id() == adapter_tick.id()
                &&& adapter_seed == adapter_tick.tick(&cells.ticks)
                &&& expected_process_tick == expected
            },
        },
    ensures
        plan.current(context, adapter_tick, adapter_execution, cells),
{
}

/// Adoption never sets a running clock: a process that has started keeps its
/// count, and one that has not shows the adapter's.
pub proof fn adoption_keeps_a_running_clock(
    plan: TickAdoption,
    process_tick: &SharedProcessTickState,
    adapter_tick: &SharedProcessTickState,
    cells: &ProcessCells,
)
    requires
        process_tick.valid(&cells.ticks),
        plan.current(process_tick, adapter_tick, cells),
    ensures
        process_tick.tick(&cells.ticks) != 0 ==> plan.seed() is None,
        process_tick.tick(&cells.ticks) == 0 && adapter_tick.id() != process_tick.id()
            && adapter_tick.tick(&cells.ticks) != 0 ==> plan.seed() == Some(
            adapter_tick.tick(&cells.ticks),
        ),
{
}

/// Clocks conflict just where both have started, in two cells, and show
/// different counts.
pub proof fn started_clocks_conflict(shared: bool, adapter_tick: u32, expected: u32)
    ensures
        ticks_conflict(shared, adapter_tick, expected) ==> !shared,
        ticks_conflict(false, 0, expected) == false,
        ticks_conflict(false, adapter_tick, 0) == false,
        ticks_conflict(false, expected, expected) == false,
        adapter_tick != 0 && expected != 0 && adapter_tick != expected ==> ticks_conflict(
            false,
            adapter_tick,
            expected,
        ),
{
}

/// Two executions that both have calls or an open menu are not adopted.
pub proof fn two_used_executions_are_not_adopted(
    plan: ExecutionAdoption,
    process_calls: SharedGuestCallStack,
    adapter: ExecutionMenuViews,
    cells: ProcessCells,
)
    requires
        plan.current(&process_calls, &adapter, &cells),
        process_calls.id() != adapter.calls.id(),
    ensures
        process_calls.value(&cells.executions).calls@.len() > 0 && adapter.calls.value(
            &cells.executions,
        ).calls@.len() > 0 ==> !plan.possible(),
        process_calls.value(&cells.executions).menu is Some && adapter.calls.value(
            &cells.executions,
        ).menu is Some ==> !plan.possible(),
        process_calls.value(&cells.executions).pristine() || adapter.calls.value(
            &cells.executions,
        ).pristine() ==> plan.possible(),
{
}

} // verus!
