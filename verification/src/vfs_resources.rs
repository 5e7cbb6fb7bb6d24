//! Native resource-file records and the resource-fork index behind them.

use crate::cells::{SharedCells, SharedProcessValue};
use crate::forks::{ForkEntries, ProcessForkBytes, ProcessForkMap};
use crate::guest_memory::copy_bytes;
use crate::lists::retain_list;
use crate::vfs::{find_record, retain_recorded, ProcessVfsResourceFileRecord};
use vstd::prelude::*;

verus! {

/// What a resource-file index holds, and how many forks there are.
#[verifier::ext_equal]
pub struct ResourceFileIndex {
    pub records: Seq<ProcessVfsResourceFileRecord>,
    pub forks: ForkEntries,
    pub fork_count: int,
}

impl ResourceFileIndex {
    /// A record is added. Its path names its fork; a path without one gets an
    /// empty fork.
    pub open spec fn pushed(self, record: ProcessVfsResourceFileRecord) -> Self {
        let records = self.records.push(record);
        if record.path@.len() == 0 {
            ResourceFileIndex { records, ..self }
        } else {
            match record.raw_data {
                Some(data) => ResourceFileIndex {
                    records,
                    forks: crate::forks::fork_inserted(self.forks, record.path@, data.id()),
                    ..self
                },
                None => if crate::forks::entry_index(self.forks, record.path@) >= 0 {
                    ResourceFileIndex { records, ..self }
                } else {
                    ResourceFileIndex {
                        records,
                        forks: self.forks.push((record.path@, self.fork_count)),
                        fork_count: self.fork_count + 1,
                    }
                },
            }
        }
    }

    pub open spec fn pushed_all(self, records: Seq<ProcessVfsResourceFileRecord>) -> Self
        decreases records.len(),
    {
        if records.len() == 0 {
            self
        } else {
            self.pushed_all(records.drop_last()).pushed(records.last())
        }
    }

    /// Records whose paths are new are added.
    pub open spec fn joined(self, records: Seq<ProcessVfsResourceFileRecord>) -> Self
        decreases records.len(),
    {
        if records.len() == 0 {
            self
        } else {
            let joined = self.joined(records.drop_last());
            if crate::vfs::record_index(joined.records, records.last().path@) >= 0 {
                joined
            } else {
                joined.pushed(records.last())
            }
        }
    }
}

/// The records after one got another path.
pub open spec fn resource_renamed(
    records: Seq<ProcessVfsResourceFileRecord>,
    old_path: Seq<char>,
    new_path: String,
) -> Seq<ProcessVfsResourceFileRecord> {
    let index = crate::vfs::record_index(records, old_path);
    if index < 0 {
        records
    } else {
        records.update(
            index,
            ProcessVfsResourceFileRecord { path: new_path, dirty: true, ..records[index] },
        )
    }
}

/// Native resource-file records, backed by the process's resource-fork index.
pub struct ProcessVfsResourceFileRecords {
    pub records: Vec<ProcessVfsResourceFileRecord>,
    pub resource_forks: SharedProcessValue<ProcessForkMap>,
}

impl ProcessVfsResourceFileRecords {
    /// The fork index exists, and no path occurs twice in it.
    pub open spec fn valid(&self, maps: &SharedCells<ProcessForkMap>) -> bool {
        &&& self.resource_forks.valid(maps@)
        &&& crate::forks::one_fork_per_path(maps@[self.resource_forks.id()]@)
    }

    /// What the index holds.
    pub open spec fn index(
        &self,
        maps: &SharedCells<ProcessForkMap>,
        forks: &SharedCells<Vec<u8>>,
    ) -> ResourceFileIndex {
        ResourceFileIndex {
            records: self.records@,
            forks: maps@[self.resource_forks.id()]@,
            fork_count: forks@.len() as int,
        }
    }

    /// The index kept its fork map, no other map changed, and no fork that
    /// was there before.
    pub open spec fn step(
        &self,
        maps_before: &SharedCells<ProcessForkMap>,
        forks_before: &SharedCells<Vec<u8>>,
        after: &Self,
        maps: &SharedCells<ProcessForkMap>,
        forks: &SharedCells<Vec<u8>>,
    ) -> bool {
        &&& after.resource_forks.id() == self.resource_forks.id()
        &&& after.valid(maps)
        &&& crate::cells::only_cell_changed(maps_before@, maps@, self.resource_forks.id())
        &&& crate::cells::cells_extend(forks_before@, forks@)
        &&& forall|i: int|
            forks_before@.len() <= i < forks@.len() ==> (#[trigger] forks@[i])@.len() == 0
    }

    /// An index without records.
    pub fn new(maps: &mut SharedCells<ProcessForkMap>) -> (files: Self)
        ensures
            files.valid(final(maps)),
            files.resource_forks.id() == old(maps)@.len(),
            crate::cells::cells_extend(old(maps)@, final(maps)@),
            final(maps)@.len() == old(maps)@.len() + 1,
            files.records@.len() == 0,
            final(maps)@[files.resource_forks.id()]@.len() == 0,
    {
        ProcessVfsResourceFileRecords {
            records: Vec::new(),
            resource_forks: maps.allocate(ProcessForkMap::new()),
        }
    }

    /// Add a record.
    pub fn push(
        &mut self,
        maps: &mut SharedCells<ProcessForkMap>,
        forks: &mut SharedCells<Vec<u8>>,
        record: ProcessVfsResourceFileRecord,
    )
        requires
            old(self).valid(old(maps)),
        ensures
            old(self).step(old(maps), old(forks), final(self), final(maps), final(forks)),
            final(self).index(final(maps), final(forks)) == old(self).index(
                old(maps),
                old(forks),
            ).pushed(record),
    {
        if !record.path.as_str().is_empty() {
            match &record.raw_data {
                Some(raw_data) => {
                    maps.get_mut(&self.resource_forks).insert_shared(record.path.clone(), raw_data);
                },
                None => {
                    maps.get_mut(&self.resource_forks).ensure_empty(forks, record.path.clone());
                },
            }
        }
        self.records.push(record);
    }

    /// Keep the records that a predicate accepts, and the forks whose paths
    /// are still recorded.
    pub fn retain(
        &mut self,
        maps: &mut SharedCells<ProcessForkMap>,
        keep: impl Fn(&ProcessVfsResourceFileRecord) -> bool,
    )
        requires
            old(self).valid(old(maps)),
            forall|record: &ProcessVfsResourceFileRecord| call_requires(keep, (record,)),
        ensures
            final(self).resource_forks.id() == old(self).resource_forks.id(),
            final(self).valid(final(maps)),
            crate::cells::only_cell_changed(old(maps)@, final(maps)@, old(self).resource_forks.id()),
            exists|marks: Seq<bool>| #![trigger crate::lists::selected(old(self).records@, marks)]
                marks.len() == old(self).records@.len() && (forall|i: int|
                    0 <= i < marks.len() ==> call_ensures(
                        keep,
                        (&old(self).records@[i],),
                        #[trigger] marks[i],
                    )) && final(self).records@ == crate::lists::selected(old(self).records@, marks),
            final(maps)@[final(self).resource_forks.id()]@ == crate::vfs::recorded_forks(
                final(self).records@,
                old(maps)@[old(self).resource_forks.id()]@,
            ),
    {
        retain_list(&mut self.records, keep);
        retain_recorded(maps.get_mut(&self.resource_forks), &self.records);
    }

    /// Replace every record.
    pub fn replace(
        &mut self,
        maps: &mut SharedCells<ProcessForkMap>,
        forks: &mut SharedCells<Vec<u8>>,
        records: Vec<ProcessVfsResourceFileRecord>,
    )
        requires
            old(self).valid(old(maps)),
        ensures
            old(self).step(old(maps), old(forks), final(self), final(maps), final(forks)),
            final(self).index(final(maps), final(forks)) == (ResourceFileIndex {
                records: Seq::empty(),
                forks: Seq::empty(),
                fork_count: old(forks)@.len() as int,
            }).pushed_all(records@),
    {
        self.records.clear();
        maps.get_mut(&self.resource_forks).clear();
        self.push_all(maps, forks, records);
    }

    fn push_all(
        &mut self,
        maps: &mut SharedCells<ProcessForkMap>,
        forks: &mut SharedCells<Vec<u8>>,
        records: Vec<ProcessVfsResourceFileRecord>,
    )
        requires
            old(self).valid(old(maps)),
        ensures
            old(self).step(old(maps), old(forks), final(self), final(maps), final(forks)),
            final(self).index(final(maps), final(forks)) == old(self).index(
                old(maps),
                old(forks),
            ).pushed_all(records@),
    {
        let mut records = records;
        let ghost all = records@;
        let ghost start = self.index(maps, forks);
        let count: usize = records.len();
        let mut i: usize = 0;
        assert(all.take(0) =~= Seq::empty());
        while i < count
            invariant
                i <= count,
                count == all.len(),
                records@ == all.skip(i as int),
                self.valid(maps),
                old(self).step(old(maps), old(forks), self, maps, forks),
                self.index(maps, forks) == start.pushed_all(all.take(i as int)),
            decreases count - i,
        {
            let record = records.remove(0);
            proof {
                assert(all.skip(i as int).remove(0) =~= all.skip(i + 1));
                assert(all.take(i + 1).drop_last() =~= all.take(i as int));
                assert(all.take(i + 1).last() == record);
            }
            self.push(maps, forks, record);
            i += 1;
        }
        assert(all.take(count as int) =~= all);
    }

    /// Give the record of a path another path; the result tells whether there
    /// was one.
    pub fn rename_path(
        &mut self,
        maps: &mut SharedCells<ProcessForkMap>,
        old_path: &str,
        new_path: &str,
    ) -> (renamed: bool)
        requires
            old(self).valid(old(maps)),
        ensures
            final(self).resource_forks.id() == old(self).resource_forks.id(),
            final(self).valid(final(maps)),
            crate::cells::only_cell_changed(old(maps)@, final(maps)@, old(self).resource_forks.id()),
            renamed == (crate::vfs::record_index(old(self).records@, old_path@) >= 0),
            exists|text: String|
                #![trigger resource_renamed(old(self).records@, old_path@, text)]
                text@ == new_path@ && final(self).records@ == resource_renamed(
                    old(self).records@,
                    old_path@,
                    text,
                ),
            final(maps)@[final(self).resource_forks.id()]@ == (if renamed {
                crate::forks::fork_renamed(
                    old(maps)@[old(self).resource_forks.id()]@,
                    old_path@,
                    new_path@,
                )
            } else {
                old(maps)@[old(self).resource_forks.id()]@
            }),
    {
        let text = new_path.to_owned();
        let path = text.clone();
        let found = find_record(&self.records, old_path);
        if let Some(index) = found {
            maps.get_mut(&self.resource_forks).rename(old_path, new_path);
            self.records[index].path = text;
            self.records[index].dirty = true;
        }
        assert(self.records@ =~= resource_renamed(old(self).records@, old_path@, path));
        found.is_some()
    }

    /// Replace the bytes of a path's fork; a path without one gets a fork.
    pub fn update_fork(
        &mut self,
        maps: &mut SharedCells<ProcessForkMap>,
        forks: &mut SharedCells<Vec<u8>>,
        path: &str,
        bytes: &Vec<u8>,
    )
        requires
            old(self).valid(old(maps)),
            old(maps)@[old(self).resource_forks.id()].valid(old(forks)),
        ensures
            final(self).resource_forks.id() == old(self).resource_forks.id(),
            final(self).records@ == old(self).records@,
            final(self).valid(final(maps)),
            final(maps)@[final(self).resource_forks.id()].valid(final(forks)),
            crate::cells::only_cell_changed(old(maps)@, final(maps)@, old(self).resource_forks.id()),
            ({
                let before = old(maps)@[old(self).resource_forks.id()]@;
                let after = final(maps)@[old(self).resource_forks.id()]@;
                let index = crate::forks::named_index(before, path@);
                if index >= 0 {
                    &&& after == before
                    &&& crate::cells::only_cell_changed(old(forks)@, final(forks)@, before[index].1)
                    &&& final(forks)@[before[index].1]@ == bytes@
                } else {
                    &&& after == before.push((path@, old(forks)@.len() as int))
                    &&& crate::cells::cells_extend(old(forks)@, final(forks)@)
                    &&& final(forks)@.len() == old(forks)@.len() + 1
                    &&& final(forks)@.last()@ == bytes@
                }
            }),
    {
        let ghost before = maps@[self.resource_forks.id()]@;
        let contents = copy_bytes(bytes);
        proof {
            crate::forks::lemma_named_index(before, path@);
            crate::forks::lemma_entry_index(before, path@);
        }
        match maps.get(&self.resource_forks).find_ignoring_case(path) {
            Some(index) => {
                let (_, fork) = maps.get(&self.resource_forks).entry_at(index);
                let fork = fork.shared_handle();
                assert(before[index as int].1 == fork.id());
                forks.set(&fork.cell, contents);
            },
            None => {
                proof {
                    if crate::forks::entry_index(before, path@) >= 0 {
                        crate::text::same_name_is_an_equivalence(path@, path@, path@);
                    }
                }
                let fork = ProcessForkBytes::from_bytes(forks, contents);
                maps.get_mut(&self.resource_forks).insert(path.to_owned(), fork);
            },
        }
    }

    /// The bytes of a path's fork.
    pub fn fork<'a>(
        &self,
        maps: &SharedCells<ProcessForkMap>,
        forks: &'a SharedCells<Vec<u8>>,
        path: &str,
    ) -> (bytes: Option<&'a Vec<u8>>)
        requires
            self.valid(maps),
            maps@[self.resource_forks.id()].valid(forks),
        ensures
            ({
                let entries = maps@[self.resource_forks.id()]@;
                match bytes {
                    Some(bytes) => crate::forks::entry_index(entries, path@) >= 0 && *bytes
                        == forks@[entries[crate::forks::entry_index(entries, path@)].1],
                    None => crate::forks::entry_index(entries, path@) < 0,
                }
            }),
    {
        maps.get(&self.resource_forks).get(forks, path)
    }

    /// Take the records and forks of another index over whose paths are new.
    pub fn merge_from(
        &mut self,
        maps: &mut SharedCells<ProcessForkMap>,
        forks: &mut SharedCells<Vec<u8>>,
        source: &mut Self,
    )
        requires
            old(self).valid(old(maps)),
            old(source).valid(old(maps)),
        ensures
            final(self).resource_forks.id() == old(self).resource_forks.id(),
            final(source).resource_forks.id() == old(source).resource_forks.id(),
            final(self).valid(final(maps)),
            final(source).valid(final(maps)),
            final(maps)@.len() == old(maps)@.len(),
            forall|i: int|
                0 <= i < old(maps)@.len() && i != old(self).resource_forks.id() && i != old(
                    source,
                ).resource_forks.id() ==> #[trigger] final(maps)@[i] == old(maps)@[i],
            crate::cells::cells_extend(old(forks)@, final(forks)@),
            forall|i: int|
                old(forks)@.len() <= i < final(forks)@.len() ==> (#[trigger] final(forks)@[i])@.len()
                    == 0,
            final(source).records@.len() == 0,
            ({
                let joined = old(self).index(old(maps), old(forks)).joined(old(source).records@);
                let shared = old(self).resource_forks.id() == old(source).resource_forks.id();
                &&& final(forks)@.len() == joined.fork_count
                &&& final(self).records@ == joined.records
                &&& final(maps)@[final(self).resource_forks.id()]@ == if shared {
                    crate::forks::forks_merged(Seq::empty(), joined.forks)
                } else {
                    crate::forks::forks_merged(joined.forks, old(maps)@[old(source).resource_forks.id()]@)
                }
                &&& !shared ==> final(maps)@[final(source).resource_forks.id()]@ == Seq::<
                    (Seq<char>, int),
                >::empty()
            }),
    {
        let mut records: Vec<ProcessVfsResourceFileRecord> = Vec::new();
        core::mem::swap(&mut records, &mut source.records);
        let ghost all = records@;
        let ghost start = self.index(maps, forks);
        let count: usize = records.len();
        let mut i: usize = 0;
        assert(all.take(0) =~= Seq::empty());
        while i < count
            invariant
                i <= count,
                count == all.len(),
                records@ == all.skip(i as int),
                self.valid(maps),
                old(self).step(old(maps), old(forks), self, maps, forks),
                self.index(maps, forks) == start.joined(all.take(i as int)),
            decreases count - i,
        {
            let record = records.remove(0);
            proof {
                assert(all.skip(i as int).remove(0) =~= all.skip(i + 1));
                assert(all.take(i + 1).drop_last() =~= all.take(i as int));
                assert(all.take(i + 1).last() == record);
            }
            if find_record(&self.records, record.path.as_str()).is_none() {
                self.push(maps, forks, record);
            }
            i += 1;
        }
        assert(all.take(count as int) =~= all);
        let entries = source.resource_forks.take(maps);
        assert(maps@[source.resource_forks.id()]@ =~= Seq::empty());
        maps.get_mut(&self.resource_forks).merge_from(entries);
    }
}

} // verus!
