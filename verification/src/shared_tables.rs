//! File Manager tables that several adapters change.

use crate::assoc::{AssocMap, KeySet};
use crate::cells::{SharedCells, SharedProcessValue};
use crate::file_system::PendingFileCompletion;
use crate::forks::{ProcessForkBytes, ProcessForkMap};
use crate::lists::retain_list;
use crate::vfs::{ProcessVfsDirectory, ProcessVfsMetadata, ProcessVfsVolumeRecord};
use vstd::prelude::*;

verus! {

impl SharedProcessValue<KeySet<u16>> {
    /// Add a reference number; the result tells whether it is new.
    pub fn insert(&self, cells: &mut SharedCells<KeySet<u16>>, refnum: u16) -> (added: bool)
        requires
            self.valid(old(cells)@),
        ensures
            crate::cells::only_cell_changed(old(cells)@, final(cells)@, self.id()),
            final(cells)@[self.id()]@ == old(cells)@[self.id()]@.insert(refnum),
            added == !old(cells)@[self.id()]@.contains(refnum),
    {
        cells.get_mut(self).insert(refnum)
    }

    pub fn remove(&self, cells: &mut SharedCells<KeySet<u16>>, refnum: &u16) -> (removed: bool)
        requires
            self.valid(old(cells)@),
        ensures
            crate::cells::only_cell_changed(old(cells)@, final(cells)@, self.id()),
            final(cells)@[self.id()]@ == old(cells)@[self.id()]@.remove(*refnum),
            removed == old(cells)@[self.id()]@.contains(*refnum),
    {
        cells.get_mut(self).remove(refnum)
    }

    pub fn contains(&self, cells: &SharedCells<KeySet<u16>>, refnum: &u16) -> (present: bool)
        requires
            self.valid(cells@),
        ensures
            present == cells@[self.id()]@.contains(*refnum),
    {
        cells.get(self).contains(refnum)
    }

    pub fn extend(&self, cells: &mut SharedCells<KeySet<u16>>, refnums: KeySet<u16>)
        requires
            self.valid(old(cells)@),
        ensures
            crate::cells::only_cell_changed(old(cells)@, final(cells)@, self.id()),
            final(cells)@[self.id()]@ == old(cells)@[self.id()]@.union(refnums@),
    {
        let mut refnums = refnums;
        cells.get_mut(self).absorb(&mut refnums);
    }
}

impl SharedProcessValue<KeySet<String>> {
    /// Add a path; the result tells whether it is new.
    pub fn insert(&self, cells: &mut SharedCells<KeySet<String>>, path: String) -> (added: bool)
        requires
            self.valid(old(cells)@),
        ensures
            crate::cells::only_cell_changed(old(cells)@, final(cells)@, self.id()),
            final(cells)@[self.id()]@ == old(cells)@[self.id()]@.insert(path@),
            added == !old(cells)@[self.id()]@.contains(path@),
    {
        cells.get_mut(self).insert(path)
    }

    pub fn remove(&self, cells: &mut SharedCells<KeySet<String>>, path: &str) -> (removed: bool)
        requires
            self.valid(old(cells)@),
        ensures
            crate::cells::only_cell_changed(old(cells)@, final(cells)@, self.id()),
            final(cells)@[self.id()]@ == old(cells)@[self.id()]@.remove(path@),
            removed == old(cells)@[self.id()]@.contains(path@),
    {
        cells.get_mut(self).remove(&path.to_owned())
    }

    pub fn extend(&self, cells: &mut SharedCells<KeySet<String>>, paths: KeySet<String>)
        requires
            self.valid(old(cells)@),
        ensures
            crate::cells::only_cell_changed(old(cells)@, final(cells)@, self.id()),
            final(cells)@[self.id()]@ == old(cells)@[self.id()]@.union(paths@),
    {
        let mut paths = paths;
        cells.get_mut(self).absorb(&mut paths);
    }
}

impl SharedProcessValue<AssocMap<String, ProcessVfsMetadata>> {
    /// Set the entry of a path; the result is the one before.
    pub fn insert(
        &self,
        cells: &mut SharedCells<AssocMap<String, ProcessVfsMetadata>>,
        path: String,
        metadata: ProcessVfsMetadata,
    ) -> (previous: Option<ProcessVfsMetadata>)
        requires
            self.valid(old(cells)@),
        ensures
            crate::cells::only_cell_changed(old(cells)@, final(cells)@, self.id()),
            final(cells)@[self.id()]@ == old(cells)@[self.id()]@.insert(path@, metadata),
            previous == (if old(cells)@[self.id()]@.dom().contains(path@) {
                Some(old(cells)@[self.id()]@[path@])
            } else {
                None
            }),
    {
        cells.get_mut(self).insert(path, metadata)
    }

    pub fn remove(&self, cells: &mut SharedCells<AssocMap<String, ProcessVfsMetadata>>, path: &str) -> (
    removed: Option<ProcessVfsMetadata>)
        requires
            self.valid(old(cells)@),
        ensures
            crate::cells::only_cell_changed(old(cells)@, final(cells)@, self.id()),
            final(cells)@[self.id()]@ == old(cells)@[self.id()]@.remove(path@),
            removed == (if old(cells)@[self.id()]@.dom().contains(path@) {
                Some(old(cells)@[self.id()]@[path@])
            } else {
                None
            }),
    {
        cells.get_mut(self).remove(&path.to_owned())
    }

    /// Change the entry of a path, where there is one.
    pub fn update(
        &self,
        cells: &mut SharedCells<AssocMap<String, ProcessVfsMetadata>>,
        path: &str,
        update: impl FnOnce(ProcessVfsMetadata) -> ProcessVfsMetadata,
    ) -> (updated: bool)
        requires
            self.valid(old(cells)@),
            old(cells)@[self.id()]@.dom().contains(path@) ==> call_requires(
                update,
                (old(cells)@[self.id()]@[path@],),
            ),
        ensures
            crate::cells::only_cell_changed(old(cells)@, final(cells)@, self.id()),
            updated == old(cells)@[self.id()]@.dom().contains(path@),
            !updated ==> final(cells)@[self.id()]@ == old(cells)@[self.id()]@,
            updated ==> {
                &&& final(cells)@[self.id()]@.dom().contains(path@)
                &&& call_ensures(
                    update,
                    (old(cells)@[self.id()]@[path@],),
                    final(cells)@[self.id()]@[path@],
                )
                &&& final(cells)@[self.id()]@ == old(cells)@[self.id()]@.insert(
                    path@,
                    final(cells)@[self.id()]@[path@],
                )
            },
    {
        let key = path.to_owned();
        let entry = match cells.get(self).get(&key) {
            Some(entry) => *entry,
            None => {
                return false;
            },
        };
        let changed = update(entry);
        cells.get_mut(self).insert(key, changed);
        true
    }

    /// Add the entries whose paths are new.
    pub fn merge_missing(
        &self,
        cells: &mut SharedCells<AssocMap<String, ProcessVfsMetadata>>,
        source: AssocMap<String, ProcessVfsMetadata>,
    )
        requires
            self.valid(old(cells)@),
        ensures
            crate::cells::only_cell_changed(old(cells)@, final(cells)@, self.id()),
            final(cells)@[self.id()]@ == source@.union_prefer_right(old(cells)@[self.id()]@),
    {
        let mut merged = source;
        let mut own = self.take(cells);
        merged.absorb(&mut own);
        cells.set(self, merged);
    }
}

impl SharedProcessValue<ProcessForkMap> {
    /// A copy of the index in a cell of its own, over copies of the forks.
    pub fn detached_clone(
        &self,
        cells: &mut SharedCells<ProcessForkMap>,
        forks: &mut SharedCells<Vec<u8>>,
    ) -> (copy: Self)
        requires
            self.valid(old(cells)@),
            old(cells)@[self.id()].valid(old(forks)),
        ensures
            copy.id() == old(cells)@.len(),
            crate::cells::cells_extend(old(cells)@, final(cells)@),
            final(cells)@.len() == old(cells)@.len() + 1,
            crate::cells::cells_extend(old(forks)@, final(forks)@),
            final(forks)@.len() == old(forks)@.len() + old(cells)@[self.id()]@.len(),
            final(cells)@[copy.id()].valid(final(forks)),
            final(cells)@[copy.id()]@.len() == old(cells)@[self.id()]@.len(),
            forall|i: int|
                0 <= i < old(cells)@[self.id()]@.len() ==> {
                    &&& (#[trigger] final(cells)@[copy.id()]@[i]).0 == old(cells)@[self.id()]@[i].0
                    &&& final(cells)@[copy.id()]@[i].1 == old(forks)@.len() + i
                    &&& final(forks)@[final(cells)@[copy.id()]@[i].1]@ == old(
                        forks,
                    )@[old(cells)@[self.id()]@[i].1]@
                },
    {
        let value = cells.get(self).detached_clone(forks);
        cells.allocate(value)
    }

    /// Make room for further entries.
    pub fn reserve(&self, cells: &mut SharedCells<ProcessForkMap>, additional: usize)
        requires
            self.valid(old(cells)@),
        ensures
            crate::cells::only_cell_changed(old(cells)@, final(cells)@, self.id()),
            final(cells)@[self.id()]@ == old(cells)@[self.id()]@,
    {
        cells.get_mut(self).reserve(additional);
    }

    /// Give a path a fork; the result is the fork that it had.
    pub fn insert(
        &self,
        cells: &mut SharedCells<ProcessForkMap>,
        path: String,
        bytes: ProcessForkBytes,
    ) -> (previous: Option<ProcessForkBytes>)
        requires
            self.valid(old(cells)@),
        ensures
            crate::cells::only_cell_changed(old(cells)@, final(cells)@, self.id()),
            final(cells)@[self.id()]@ == crate::forks::fork_inserted(
                old(cells)@[self.id()]@,
                path@,
                bytes.id(),
            ),
            match previous {
                Some(fork) => crate::forks::entry_index(old(cells)@[self.id()]@, path@) >= 0 && fork.id() == old(
                    cells,
                )@[self.id()]@[crate::forks::entry_index(old(cells)@[self.id()]@, path@)].1,
                None => crate::forks::entry_index(old(cells)@[self.id()]@, path@) < 0,
            },
    {
        cells.get_mut(self).insert(path, bytes)
    }

    /// Let a path name a fork that another index holds.
    pub fn insert_shared(
        &self,
        cells: &mut SharedCells<ProcessForkMap>,
        path: String,
        bytes: &ProcessForkBytes,
    ) -> (previous: Option<ProcessForkBytes>)
        requires
            self.valid(old(cells)@),
        ensures
            crate::cells::only_cell_changed(old(cells)@, final(cells)@, self.id()),
            final(cells)@[self.id()]@ == crate::forks::fork_inserted(
                old(cells)@[self.id()]@,
                path@,
                bytes.id(),
            ),
            match previous {
                Some(fork) => crate::forks::entry_index(old(cells)@[self.id()]@, path@) >= 0 && fork.id() == old(
                    cells,
                )@[self.id()]@[crate::forks::entry_index(old(cells)@[self.id()]@, path@)].1,
                None => crate::forks::entry_index(old(cells)@[self.id()]@, path@) < 0,
            },
    {
        cells.get_mut(self).insert_shared(path, bytes)
    }

    /// Drop a path; the result is the fork that it had.
    pub fn remove(&self, cells: &mut SharedCells<ProcessForkMap>, path: &str) -> (removed: Option<
        ProcessForkBytes,
    >)
        requires
            self.valid(old(cells)@),
        ensures
            crate::cells::only_cell_changed(old(cells)@, final(cells)@, self.id()),
            final(cells)@[self.id()]@ == crate::forks::fork_removed(old(cells)@[self.id()]@, path@),
            match removed {
                Some(fork) => crate::forks::entry_index(old(cells)@[self.id()]@, path@) >= 0 && fork.id() == old(
                    cells,
                )@[self.id()]@[crate::forks::entry_index(old(cells)@[self.id()]@, path@)].1,
                None => crate::forks::entry_index(old(cells)@[self.id()]@, path@) < 0,
            },
    {
        cells.get_mut(self).remove(path)
    }

    pub fn clear(&self, cells: &mut SharedCells<ProcessForkMap>)
        requires
            self.valid(old(cells)@),
        ensures
            crate::cells::only_cell_changed(old(cells)@, final(cells)@, self.id()),
            final(cells)@[self.id()]@ == Seq::<(Seq<char>, int)>::empty(),
    {
        cells.get_mut(self).clear();
    }

    /// Keep the entries whose path a predicate accepts.
    pub fn retain(&self, cells: &mut SharedCells<ProcessForkMap>, keep: impl Fn(&String) -> bool)
        requires
            self.valid(old(cells)@),
            forall|path: &String| call_requires(keep, (path,)),
        ensures
            crate::cells::only_cell_changed(old(cells)@, final(cells)@, self.id()),
            exists|marks: Seq<bool>, paths: Seq<String>|
                #![trigger crate::lists::selected(old(cells)@[self.id()]@, marks), paths.len()]
                marks.len() == old(cells)@[self.id()]@.len() && paths.len() == marks.len() && (
                forall|i: int|
                    0 <= i < marks.len() ==> (#[trigger] paths[i])@ == old(cells)@[self.id()]@[i].0
                        && call_ensures(keep, (&paths[i],), marks[i])) && final(cells)@[self.id()]@ == crate::lists::selected(old(cells)@[self.id()]@, marks),
    {
        cells.get_mut(self).retain(keep);
    }

    /// A path that is not there yet gets an empty fork.
    pub fn ensure_empty(
        &self,
        cells: &mut SharedCells<ProcessForkMap>,
        forks: &mut SharedCells<Vec<u8>>,
        path: String,
    )
        requires
            self.valid(old(cells)@),
        ensures
            crate::cells::only_cell_changed(old(cells)@, final(cells)@, self.id()),
            crate::cells::cells_extend(old(forks)@, final(forks)@),
            if crate::forks::entry_index(old(cells)@[self.id()]@, path@) >= 0 {
                final(cells)@[self.id()]@ == old(cells)@[self.id()]@ && final(forks)@
                    == old(forks)@
            } else {
                &&& final(forks)@.len() == old(forks)@.len() + 1
                &&& final(forks)@.last()@.len() == 0
                &&& final(cells)@[self.id()]@ == old(cells)@[self.id()]@.push(
                    (path@, old(forks)@.len() as int),
                )
            },
    {
        cells.get_mut(self).ensure_empty(forks, path);
    }

    /// A path that is not there yet gets a fork.
    pub fn insert_if_absent(
        &self,
        cells: &mut SharedCells<ProcessForkMap>,
        path: String,
        bytes: ProcessForkBytes,
    )
        requires
            self.valid(old(cells)@),
        ensures
            crate::cells::only_cell_changed(old(cells)@, final(cells)@, self.id()),
            final(cells)@[self.id()]@ == (if crate::forks::entry_index(old(cells)@[self.id()]@, path@) >= 0 {
                old(cells)@[self.id()]@
            } else {
                old(cells)@[self.id()]@.push((path@, bytes.id()))
            }),
    {
        cells.get_mut(self).insert_if_absent(path, bytes);
    }

    /// Change the bytes of a path's fork during one operation.
    pub fn with_entry_mut<R>(
        &self,
        cells: &SharedCells<ProcessForkMap>,
        forks: &mut SharedCells<Vec<u8>>,
        path: &str,
        update: impl FnOnce(&mut Vec<u8>) -> R,
    ) -> (result: Option<R>)
        requires
            self.valid(cells@),
            cells@[self.id()].valid(old(forks)),
            crate::forks::entry_index(cells@[self.id()]@, path@) >= 0 ==> forall|bytes: &mut Vec<u8>|
                *bytes == old(forks)@[cells@[self.id()]@[crate::forks::entry_index(
                    cells@[self.id()]@,
                    path@,
                )].1] ==> call_requires(update, (bytes,)),
        ensures
            result is Some <==> crate::forks::entry_index(cells@[self.id()]@, path@) >= 0,
            result is None ==> final(forks)@ == old(forks)@,
            result is Some ==> exists|bytes: &mut Vec<u8>|
                #![trigger call_ensures(update, (bytes,), result->0)]
                *bytes == old(forks)@[cells@[self.id()]@[crate::forks::entry_index(
                    cells@[self.id()]@,
                    path@,
                )].1] && call_ensures(update, (bytes,), result->0) && final(forks)@
                    == old(forks)@.update(
                    cells@[self.id()]@[crate::forks::entry_index(cells@[self.id()]@, path@)].1,
                    *final(bytes),
                ),
    {
        cells.get(self).with_entry_mut(forks, path, update)
    }

    /// Change the bytes of a path's fork during one operation; a path that is
    /// not there yet gets an empty fork first.
    pub fn with_entry_or_default_mut<R>(
        &self,
        cells: &mut SharedCells<ProcessForkMap>,
        forks: &mut SharedCells<Vec<u8>>,
        path: String,
        update: impl FnOnce(&mut Vec<u8>) -> R,
    ) -> (result: R)
        requires
            self.valid(old(cells)@),
            old(cells)@[self.id()].valid(old(forks)),
            forall|bytes: &mut Vec<u8>|
                #![trigger call_requires(update, (bytes,))]
                (if crate::forks::entry_index(old(cells)@[self.id()]@, path@) >= 0 {
                    *bytes == old(forks)@[old(cells)@[self.id()]@[crate::forks::entry_index(
                        old(cells)@[self.id()]@,
                        path@,
                    )].1]
                } else {
                    (*bytes)@.len() == 0
                }) ==> call_requires(update, (bytes,)),
        ensures
            crate::cells::only_cell_changed(old(cells)@, final(cells)@, self.id()),
            final(cells)@[self.id()]@ == (if crate::forks::entry_index(
                old(cells)@[self.id()]@,
                path@,
            ) >= 0 {
                old(cells)@[self.id()]@
            } else {
                old(cells)@[self.id()]@.push((path@, old(forks)@.len() as int))
            }),
            exists|bytes: &mut Vec<u8>|
                #![trigger call_ensures(update, (bytes,), result)]
                call_ensures(update, (bytes,), result) && if crate::forks::entry_index(
                    old(cells)@[self.id()]@,
                    path@,
                ) >= 0 {
                    let id = old(cells)@[self.id()]@[crate::forks::entry_index(
                        old(cells)@[self.id()]@,
                        path@,
                    )].1;
                    *bytes == old(forks)@[id] && final(forks)@ == old(forks)@.update(
                        id,
                        *final(bytes),
                    )
                } else {
                    (*bytes)@.len() == 0 && final(forks)@ == old(forks)@.push(*final(bytes))
                },
    {
        let name = path.as_str().to_owned();
        let ghost before = cells@[self.id()]@;
        let ghost known = forks@;
        self.ensure_empty(cells, forks, path);
        let ghost ready = forks@;
        proof {
            let after = cells@[self.id()]@;
            crate::forks::lemma_entry_index(before, name@);
            crate::forks::lemma_entry_index(after, name@);
            if crate::forks::entry_index(before, name@) < 0 {
                let index = crate::forks::entry_index(after, name@);
                assert(after[before.len() as int] == (name@, known.len() as int));
                assert(index < before.len() ==> after[index] == before[index]);
                assert(ready =~= known.push(ready.last()));
            }
        }
        let result = self.with_entry_mut(cells, forks, name.as_str(), update);
        proof {
            if crate::forks::entry_index(before, name@) < 0 {
                assert(forall|bytes: Vec<u8>|
                    #![trigger known.push(bytes)]
                    ready.update(known.len() as int, bytes) =~= known.push(bytes));
            }
        }
        result.unwrap()
    }
}

impl SharedProcessValue<Vec<PendingFileCompletion>> {
    pub fn push_back(
        &self,
        cells: &mut SharedCells<Vec<PendingFileCompletion>>,
        completion: PendingFileCompletion,
    )
        requires
            self.valid(old(cells)@),
        ensures
            crate::cells::only_cell_changed(old(cells)@, final(cells)@, self.id()),
            final(cells)@[self.id()]@ == old(cells)@[self.id()]@.push(completion),
    {
        cells.get_mut(self).push(completion);
    }

    /// Take the completion that waits longest.
    pub fn pop_front(&self, cells: &mut SharedCells<Vec<PendingFileCompletion>>) -> (completion:
        Option<PendingFileCompletion>)
        requires
            self.valid(old(cells)@),
        ensures
            crate::cells::only_cell_changed(old(cells)@, final(cells)@, self.id()),
            match completion {
                Some(completion) => {
                    &&& old(cells)@[self.id()]@.len() > 0
                    &&& completion == old(cells)@[self.id()]@[0]
                    &&& final(cells)@[self.id()]@ == old(cells)@[self.id()]@.drop_first()
                },
                None => old(cells)@[self.id()]@.len() == 0 && final(cells)@[self.id()]@
                    == old(cells)@[self.id()]@,
            },
    {
        let completions = cells.get_mut(self);
        if completions.len() == 0 {
            return None;
        }
        let ghost before = completions@;
        let completion = completions.remove(0);
        assert(completions@ =~= before.drop_first());
        Some(completion)
    }

    pub fn extend(
        &self,
        cells: &mut SharedCells<Vec<PendingFileCompletion>>,
        completions: Vec<PendingFileCompletion>,
    )
        requires
            self.valid(old(cells)@),
        ensures
            crate::cells::only_cell_changed(old(cells)@, final(cells)@, self.id()),
            final(cells)@[self.id()]@ == old(cells)@[self.id()]@ + completions@,
    {
        let mut completions = completions;
        cells.get_mut(self).append(&mut completions);
    }
}

impl SharedProcessValue<Vec<ProcessVfsVolumeRecord>> {
    pub fn push(
        &self,
        cells: &mut SharedCells<Vec<ProcessVfsVolumeRecord>>,
        volume: ProcessVfsVolumeRecord,
    )
        requires
            self.valid(old(cells)@),
        ensures
            crate::cells::only_cell_changed(old(cells)@, final(cells)@, self.id()),
            final(cells)@[self.id()]@ == old(cells)@[self.id()]@.push(volume),
    {
        cells.get_mut(self).push(volume);
    }
}

impl SharedProcessValue<Vec<ProcessVfsDirectory>> {
    pub fn push(
        &self,
        cells: &mut SharedCells<Vec<ProcessVfsDirectory>>,
        directory: ProcessVfsDirectory,
    )
        requires
            self.valid(old(cells)@),
        ensures
            crate::cells::only_cell_changed(old(cells)@, final(cells)@, self.id()),
            final(cells)@[self.id()]@ == old(cells)@[self.id()]@.push(directory),
    {
        cells.get_mut(self).push(directory);
    }

    /// Keep the directories that a predicate accepts.
    pub fn retain(
        &self,
        cells: &mut SharedCells<Vec<ProcessVfsDirectory>>,
        keep: impl Fn(&ProcessVfsDirectory) -> bool,
    )
        requires
            self.valid(old(cells)@),
            forall|directory: &ProcessVfsDirectory| call_requires(keep, (directory,)),
        ensures
            crate::cells::only_cell_changed(old(cells)@, final(cells)@, self.id()),
            exists|marks: Seq<bool>| #![trigger crate::lists::selected(old(cells)@[self.id()]@, marks)]
                marks.len() == old(cells)@[self.id()]@.len() && (forall|i: int|
                    0 <= i < marks.len() ==> call_ensures(
                        keep,
                        (&old(cells)@[self.id()]@[i],),
                        #[trigger] marks[i],
                    )) && final(cells)@[self.id()]@ == crate::lists::selected(old(cells)@[self.id()]@, marks),
    {
        retain_list(cells.get_mut(self), keep);
    }
}

} // verus!
