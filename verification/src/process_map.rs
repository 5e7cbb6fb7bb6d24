//! Process metadata indexed by a guest address.

use crate::assoc::AssocMap;
use crate::cells::{SharedCells, SharedProcessValue};
use vstd::prelude::*;

verus! {

/// A handle to metadata that every adapter of the process observes.
pub struct SharedProcessMap<V> {
    pub cell: SharedProcessValue<AssocMap<u32, V>>,
}

pub open spec fn map_get<V>(map: Map<u32, V>, key: u32) -> Option<V> {
    if map.dom().contains(key) {
        Some(map[key])
    } else {
        None
    }
}

impl<V: Copy> SharedProcessMap<V> {
    pub open spec fn id(&self) -> int {
        self.cell.id()
    }

    pub open spec fn valid(&self, cells: &SharedCells<AssocMap<u32, V>>) -> bool {
        self.cell.valid(cells@)
    }

    /// The entries that the handle observes.
    pub open spec fn entries(&self, cells: &SharedCells<AssocMap<u32, V>>) -> Map<u32, V> {
        cells@[self.cell.id()]@
    }

    /// An empty map in a cell of its own.
    pub fn new(cells: &mut SharedCells<AssocMap<u32, V>>) -> (map: Self)
        ensures
            map.id() == old(cells)@.len(),
            map.valid(final(cells)),
            final(cells)@.len() == old(cells)@.len() + 1,
            forall|i: int| 0 <= i < old(cells)@.len() ==> #[trigger] final(cells)@[i] == old(cells)@[i],
            map.entries(final(cells)) == Map::<u32, V>::empty(),
    {
        SharedProcessMap { cell: cells.allocate(AssocMap::new()) }
    }

    /// Another handle to the same map.
    pub fn shared_handle(&self) -> (handle: Self)
        ensures
            handle.id() == self.id(),
    {
        SharedProcessMap { cell: self.cell.shared_handle() }
    }

    /// A copy of the entries in a cell of its own.
    pub fn detached_clone(&self, cells: &mut SharedCells<AssocMap<u32, V>>) -> (copy: Self)
        requires
            self.valid(old(cells)),
        ensures
            copy.id() == old(cells)@.len(),
            copy.valid(final(cells)),
            final(cells)@.len() == old(cells)@.len() + 1,
            forall|i: int| 0 <= i < old(cells)@.len() ==> #[trigger] final(cells)@[i] == old(cells)@[i],
            copy.entries(final(cells)) == self.entries(old(cells)),
    {
        let entries = cells.get(&self.cell).copy_map();
        SharedProcessMap { cell: cells.allocate(entries) }
    }

    /// Whether two handles observe one map.
    pub fn ptr_eq(&self, other: &Self) -> (same: bool)
        ensures
            same == (self.id() == other.id()),
    {
        self.cell.ptr_eq(&other.cell)
    }

    pub fn insert(&self, cells: &mut SharedCells<AssocMap<u32, V>>, key: u32, value: V) -> (previous:
        Option<V>)
        requires
            self.valid(old(cells)),
        ensures
            crate::cells::only_cell_changed(old(cells)@, final(cells)@, self.id()),
            self.entries(final(cells)) == self.entries(old(cells)).insert(key, value),
            previous == map_get(self.entries(old(cells)), key),
    {
        cells.get_mut(&self.cell).insert(key, value)
    }

    pub fn remove(&self, cells: &mut SharedCells<AssocMap<u32, V>>, key: u32) -> (removed: Option<V>)
        requires
            self.valid(old(cells)),
        ensures
            crate::cells::only_cell_changed(old(cells)@, final(cells)@, self.id()),
            self.entries(final(cells)) == self.entries(old(cells)).remove(key),
            removed == map_get(self.entries(old(cells)), key),
    {
        cells.get_mut(&self.cell).remove(&key)
    }

    pub fn get(&self, cells: &SharedCells<AssocMap<u32, V>>, key: u32) -> (value: Option<V>)
        requires
            self.valid(cells),
        ensures
            value == map_get(self.entries(cells), key),
    {
        match cells.get(&self.cell).get(&key) {
            Some(value) => Some(*value),
            None => None,
        }
    }

    pub fn contains_key(&self, cells: &SharedCells<AssocMap<u32, V>>, key: u32) -> (present: bool)
        requires
            self.valid(cells),
        ensures
            present == self.entries(cells).dom().contains(key),
    {
        cells.get(&self.cell).contains_key(&key)
    }

    /// Move the entries of another map in; they replace entries with their
    /// keys. A map that absorbs itself stays as it is.
    pub fn absorb(&self, cells: &mut SharedCells<AssocMap<u32, V>>, source: &Self)
        requires
            self.valid(old(cells)),
            source.valid(old(cells)),
        ensures
            final(cells)@.len() == old(cells)@.len(),
            forall|i: int|
                0 <= i < old(cells)@.len() && i != self.id() && i != source.id()
                    ==> #[trigger] final(cells)@[i] == old(cells)@[i],
            self.entries(final(cells)) == self.entries(old(cells)).union_prefer_right(
                source.entries(old(cells)),
            ),
            self.id() != source.id() ==> source.entries(final(cells)) == Map::<u32, V>::empty(),
    {
        if self.ptr_eq(source) {
            assert(self.entries(cells).union_prefer_right(self.entries(cells)) =~= self.entries(
                cells,
            ));
            return;
        }
        let mut moved: AssocMap<u32, V> = AssocMap::new();
        core::mem::swap(&mut moved, cells.get_mut(&source.cell));
        cells.get_mut(&self.cell).absorb(&mut moved);
    }

    /// Take over the entries of another map.
    pub fn replace_from(&self, cells: &mut SharedCells<AssocMap<u32, V>>, source: &Self)
        requires
            self.valid(old(cells)),
            source.valid(old(cells)),
        ensures
            crate::cells::only_cell_changed(old(cells)@, final(cells)@, self.id()),
            self.entries(final(cells)) == source.entries(old(cells)),
    {
        let entries = cells.get(&source.cell).copy_map();
        cells.set(&self.cell, entries);
    }

    /// Recompute one entry from its present value; `None` drops it.
    pub fn update(
        &self,
        cells: &mut SharedCells<AssocMap<u32, V>>,
        key: u32,
        update: impl FnOnce(Option<V>) -> Option<V>,
    )
        requires
            self.valid(old(cells)),
            call_requires(update, (map_get(self.entries(old(cells)), key),)),
        ensures
            crate::cells::only_cell_changed(old(cells)@, final(cells)@, self.id()),
            exists|value: Option<V>|
                call_ensures(update, (map_get(self.entries(old(cells)), key),), value)
                    && self.entries(final(cells)) == (match value {
                    Some(value) => self.entries(old(cells)).insert(key, value),
                    None => self.entries(old(cells)).remove(key),
                }),
    {
        let current = self.get(cells, key);
        let value = update(current);
        match value {
            Some(present) => {
                self.insert(cells, key, present);
            },
            None => {
                self.remove(cells, key);
            },
        }
    }
}

} // verus!
