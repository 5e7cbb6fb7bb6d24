//! The tick count that the adapters of a process share.

use crate::cells::{SharedCells, SharedProcessValue};
use vstd::prelude::*;

verus! {

/// The last tick count of the guest that the host has seen. The guest's own
/// count stands in its low memory.
pub struct SharedProcessTickState {
    pub cell: SharedProcessValue<u32>,
}

/// How many ticks `to` lies ahead of `from` on the clock, which wraps.
pub open spec fn ticks_ahead(from: u32, to: u32) -> int {
    (to - from) % 0x1_0000_0000
}

/// `candidate` is newer than `current`: less than half the clock ahead.
pub open spec fn tick_is_newer(current: u32, candidate: u32) -> bool {
    0 < ticks_ahead(current, candidate) < 0x8000_0000
}

/// The clock after a candidate was offered to it.
pub open spec fn published_tick(current: u32, candidate: u32) -> u32 {
    if tick_is_newer(current, candidate) {
        candidate
    } else {
        current
    }
}

/// The clock a number of ticks later.
pub open spec fn later_tick(current: u32, ticks: u32) -> u32 {
    ((current + ticks) % 0x1_0000_0000) as u32
}

impl SharedProcessTickState {
    pub open spec fn id(&self) -> int {
        self.cell.id()
    }

    /// The handle names a cell of the store.
    pub open spec fn valid(&self, cells: &SharedCells<u32>) -> bool {
        self.cell.valid(cells@)
    }

    /// The tick count that the handle observes.
    pub open spec fn tick(&self, cells: &SharedCells<u32>) -> u32 {
        cells@[self.cell.id()]
    }

    pub fn from_value(cells: &mut SharedCells<u32>, tick: u32) -> (state: Self)
        ensures
            state.id() == old(cells)@.len(),
            final(cells)@ == old(cells)@.push(tick),
    {
        SharedProcessTickState { cell: cells.allocate(tick) }
    }

    /// A clock of its own at zero.
    pub fn new(cells: &mut SharedCells<u32>) -> (state: Self)
        ensures
            state.id() == old(cells)@.len(),
            final(cells)@ == old(cells)@.push(0),
    {
        SharedProcessTickState::from_value(cells, 0)
    }

    /// A clock of its own that stands where this one does.
    pub fn detached_snapshot(&self, cells: &mut SharedCells<u32>) -> (copy: Self)
        requires
            self.valid(old(cells)),
        ensures
            copy.id() == old(cells)@.len(),
            final(cells)@ == old(cells)@.push(self.tick(old(cells))),
    {
        let tick: u32 = self.current_tick(cells);
        SharedProcessTickState::from_value(cells, tick)
    }

    /// Another handle to the same clock.
    pub fn shared_handle(&self) -> (handle: Self)
        ensures
            handle.id() == self.id(),
    {
        SharedProcessTickState { cell: self.cell.shared_handle() }
    }

    /// Whether two handles name one clock.
    pub fn ptr_eq(&self, other: &Self) -> (same: bool)
        ensures
            same == (self.id() == other.id()),
    {
        self.cell.ptr_eq(&other.cell)
    }

    /// Take over the tick count that the guest's low memory holds.
    pub fn read_tick_count(&self, cells: &mut SharedCells<u32>, guest_ticks: u32) -> (tick: u32)
        requires
            self.valid(old(cells)),
        ensures
            tick == guest_ticks,
            final(cells)@ == old(cells)@.update(self.id(), guest_ticks),
    {
        self.set_tick(cells, guest_ticks);
        guest_ticks
    }

    pub fn current_tick(&self, cells: &SharedCells<u32>) -> (tick: u32)
        requires
            self.valid(cells),
        ensures
            tick == self.tick(cells),
    {
        *cells.get(&self.cell)
    }

    pub fn set_tick(&self, cells: &mut SharedCells<u32>, tick: u32)
        requires
            self.valid(old(cells)),
        ensures
            final(cells)@ == old(cells)@.update(self.id(), tick),
    {
        cells.set(&self.cell, tick);
    }

    /// Offer a tick count to the clock, which does not go back.
    pub fn publish_tick(&self, cells: &mut SharedCells<u32>, candidate: u32) -> (tick: u32)
        requires
            self.valid(old(cells)),
        ensures
            tick == published_tick(self.tick(old(cells)), candidate),
            final(cells)@ == old(cells)@.update(self.id(), tick),
    {
        let current: u32 = self.current_tick(cells);
        let delta: u32 = candidate.wrapping_sub(current);
        if delta != 0 && delta < 0x8000_0000 {
            self.set_tick(cells, candidate);
            candidate
        } else {
            assert(cells@.update(self.id(), current) =~= cells@);
            current
        }
    }

    /// Move the clock on, past its end if need be.
    pub fn advance_ticks(&self, cells: &mut SharedCells<u32>, ticks: u32) -> (tick: u32)
        requires
            self.valid(old(cells)),
        ensures
            tick == later_tick(self.tick(old(cells)), ticks),
            final(cells)@ == old(cells)@.update(self.id(), tick),
    {
        let current: u32 = self.current_tick(cells).wrapping_add(ticks);
        self.set_tick(cells, current);
        current
    }
}

/// A published clock never goes back: what it shows afterwards is the old
/// count or a newer one.
pub proof fn published_clock_never_goes_back(current: u32, candidate: u32)
    ensures
        ticks_ahead(current, published_tick(current, candidate)) < 0x8000_0000,
        published_tick(current, candidate) == current || tick_is_newer(
            current,
            published_tick(current, candidate),
        ),
{
}

/// Of two different counts that are not exactly half the clock apart, one is
/// newer and the other is not.
pub proof fn newer_is_decided(a: u32, b: u32)
    requires
        a != b,
        ticks_ahead(a, b) != 0x8000_0000,
    ensures
        tick_is_newer(a, b) != tick_is_newer(b, a),
{
}

/// A count from before an advance by less than half the clock is refused
/// after it, and the advanced count would have been accepted before it.
pub proof fn stale_count_is_refused(current: u32, ticks: u32)
    requires
        0 < ticks < 0x8000_0000,
    ensures
        published_tick(later_tick(current, ticks), current) == later_tick(current, ticks),
        published_tick(current, later_tick(current, ticks)) == later_tick(current, ticks),
{
}

/// An advance moves the clock on by its ticks, past its end if need be, and
/// two advances move it by both.
pub proof fn advances_add_up(current: u32, first: u32, second: u32)
    ensures
        ticks_ahead(current, later_tick(current, first)) == first,
        later_tick(current, 0) == current,
        current + first <= u32::MAX ==> later_tick(current, first) == current + first,
        first + second <= u32::MAX ==> later_tick(later_tick(current, first), second) == later_tick(
            current,
            (first + second) as u32,
        ),
{
}

} // verus!
