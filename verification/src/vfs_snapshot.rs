//! Detached copies of file indexes: the copies have forks of their own.

use crate::cells::SharedCells;
use crate::forks::{ForkEntries, ProcessForkMap};
use crate::vfs::{
    FileIndex, ProcessVfsFileRecord, ProcessVfsFileRecords, ProcessVfsResourceFileRecord,
};
use crate::vfs_resources::ProcessVfsResourceFileRecords;
use vstd::prelude::*;

verus! {

/// A copy of a file record whose fork has the same bytes and is new.
pub open spec fn file_copied(
    record: ProcessVfsFileRecord,
    copy: ProcessVfsFileRecord,
    before: Seq<Vec<u8>>,
    after: Seq<Vec<u8>>,
) -> bool {
    &&& copy == (ProcessVfsFileRecord { data: copy.data, ..record })
    &&& before.len() <= copy.data.id() < after.len()
    &&& after[copy.data.id()]@ == before[record.data.id()]@
}

impl ProcessVfsFileRecords {
    /// Every record's fork exists.
    pub open spec fn forks_exist(&self, forks: &SharedCells<Vec<u8>>) -> bool {
        forall|i: int| 0 <= i < self.records@.len() ==> (#[trigger] self.records@[i]).data.valid(forks)
    }

    /// A copy with forks of its own. Its fork index names what its records
    /// name.
    pub fn detached_clone(
        &self,
        maps: &mut SharedCells<ProcessForkMap>,
        forks: &mut SharedCells<Vec<u8>>,
    ) -> (copy: Self)
        requires
            self.forks_exist(old(forks)),
        ensures
            copy.valid(final(maps)),
            copy.forks_exist(final(forks)),
            copy.data_forks.id() == old(maps)@.len(),
            crate::cells::cells_extend(old(maps)@, final(maps)@),
            final(maps)@.len() == old(maps)@.len() + 1,
            crate::cells::cells_extend(old(forks)@, final(forks)@),
            copy.records@.len() == self.records@.len(),
            forall|i: int|
                0 <= i < self.records@.len() ==> file_copied(
                    self.records@[i],
                    #[trigger] copy.records@[i],
                    old(forks)@,
                    final(forks)@,
                ),
            copy.index(final(maps)) == (FileIndex {
                records: Seq::<ProcessVfsFileRecord>::empty(),
                forks: Seq::<(Seq<char>, int)>::empty(),
            }).pushed_all(copy.records@),
    {
        let ghost start = forks@;
        let mut copy = ProcessVfsFileRecords::new(maps);
        let ghost empty = FileIndex {
            records: Seq::<ProcessVfsFileRecord>::empty(),
            forks: Seq::<(Seq<char>, int)>::empty(),
        };
        let mut i: usize = 0;
        assert(copy.records@ =~= Seq::empty());
        while i < self.records.len()
            invariant
                i <= self.records@.len(),
                forall|j: int|
                    0 <= j < self.records@.len() ==> 0 <= (#[trigger] self.records@[j]).data.id()
                        < start.len(),
                crate::cells::cells_extend(start, forks@),
                crate::cells::cells_extend(old(maps)@, maps@),
                maps@.len() == old(maps)@.len() + 1,
                copy.data_forks.id() == old(maps)@.len(),
                copy.valid(maps),
                copy.records@.len() == i,
                forall|j: int|
                    0 <= j < i ==> file_copied(
                        self.records@[j],
                        #[trigger] copy.records@[j],
                        start,
                        forks@,
                    ),
                copy.index(maps) == empty.pushed_all(copy.records@),
            decreases self.records@.len() - i,
        {
            let record = &self.records[i];
            assert(record.data.valid(forks));
            let data = record.data.detached_clone(forks);
            let copied = ProcessVfsFileRecord {
                path: record.path.clone(),
                data,
                creator: record.creator,
                file_type: record.file_type,
                finder_flags: record.finder_flags,
                dirty: record.dirty,
            };
            let ghost before = copy.records@;
            copy.push(maps, copied);
            proof {
                assert(copy.records@.drop_last() =~= before);
                assert(copy.records@.last() == copied);
            }
            i += 1;
        }
        copy
    }
}

/// A copy of a resource-file record whose fork, where it has one, is new.
pub open spec fn resource_file_copied(
    record: ProcessVfsResourceFileRecord,
    copy: ProcessVfsResourceFileRecord,
    fork_count: int,
    new_fork_count: int,
) -> bool {
    &&& copy == (ProcessVfsResourceFileRecord { raw_data: copy.raw_data, ..record })
    &&& match (record.raw_data, copy.raw_data) {
        (Some(_), Some(fork)) => fork_count <= fork.id() < new_fork_count,
        (None, None) => true,
        _ => false,
    }
}

/// The paths of an index.
pub open spec fn paths_of(entries: ForkEntries) -> Seq<Seq<char>> {
    Seq::new(entries.len(), |i: int| entries[i].0)
}

/// The paths of records, each once, in the order in which they come up.
pub open spec fn record_paths(records: Seq<ProcessVfsResourceFileRecord>) -> Seq<Seq<char>>
    decreases records.len(),
{
    if records.len() == 0 {
        Seq::empty()
    } else {
        let paths = record_paths(records.drop_last());
        let path = records.last().path@;
        if path.len() == 0 || paths.contains(path) {
            paths
        } else {
            paths.push(path)
        }
    }
}

/// Some path agrees with `path` but for case.
pub open spec fn names_path(paths: Seq<Seq<char>>, path: Seq<char>) -> bool {
    exists|i: int| 0 <= i < paths.len() && crate::text::same_name(#[trigger] paths[i], path)
}

/// Paths, and those of an index that agree with none of them, not even but for
/// case.
pub open spec fn joined_paths(paths: Seq<Seq<char>>, entries: ForkEntries) -> Seq<Seq<char>>
    decreases entries.len(),
{
    if entries.len() == 0 {
        paths
    } else {
        let joined = joined_paths(paths, entries.drop_last());
        if names_path(joined, entries.last().0) {
            joined
        } else {
            joined.push(entries.last().0)
        }
    }
}

/// The last record of a path that has a fork, or a negative number.
pub open spec fn last_with_fork(
    records: Seq<ProcessVfsResourceFileRecord>,
    path: Seq<char>,
) -> int
    decreases records.len(),
{
    if records.len() == 0 {
        -1
    } else if records.last().path@ == path && records.last().raw_data is Some {
        records.len() - 1
    } else {
        last_with_fork(records.drop_last(), path)
    }
}

/// The last entry whose path leads, but for case, to entry `k` of the copy, or
/// a negative number.
pub open spec fn source_entry(entries: ForkEntries, copied: ForkEntries, k: int) -> int
    decreases entries.len(),
{
    if entries.len() == 0 {
        -1
    } else if crate::forks::named_index(copied, entries.last().0) == k {
        entries.len() - 1
    } else {
        source_entry(entries.drop_last(), copied, k)
    }
}

/// The bytes that entry `k` of the copy has: those of the entry that it came
/// from, else those of the record that it came from, else none.
pub open spec fn copied_bytes(
    records: Seq<ProcessVfsResourceFileRecord>,
    entries: ForkEntries,
    before: Seq<Vec<u8>>,
    copied: ForkEntries,
    k: int,
) -> Seq<u8> {
    let source = source_entry(entries, copied, k);
    let record = last_with_fork(records, copied[k].0);
    if source >= 0 {
        before[entries[source].1]@
    } else if record >= 0 {
        before[(records[record].raw_data->0).id()]@
    } else {
        Seq::empty()
    }
}

/// The path of record `j` names its fork.
pub open spec fn is_named(records: Seq<ProcessVfsResourceFileRecord>, j: int) -> bool {
    records[j].path@.len() > 0 && last_with_fork(records, records[j].path@) == j
}

/// Records with an index are copied: the copies have forks of their own, the
/// index of the copy has exactly the paths of the records and of the index,
/// and each path names a fork with the bytes that it named before.
pub open spec fn resource_copy(
    records: Seq<ProcessVfsResourceFileRecord>,
    entries: ForkEntries,
    before: Seq<Vec<u8>>,
    copies: Seq<ProcessVfsResourceFileRecord>,
    copied: ForkEntries,
    after: Seq<Vec<u8>>,
) -> bool {
    &&& copies.len() == records.len()
    &&& forall|j: int|
        0 <= j < records.len() ==> resource_file_copied(
            records[j],
            #[trigger] copies[j],
            before.len() as int,
            after.len() as int,
        )
    &&& forall|j: int, m: int|
        0 <= j < m < records.len() && copies[j].raw_data is Some && copies[m].raw_data is Some
            ==> ((#[trigger] copies[j]).raw_data->0).id() != ((
        #[trigger] copies[m]).raw_data->0).id()
    &&& paths_of(copied) == joined_paths(record_paths(records), entries)
    &&& forks_above(copied, before.len() as int, after.len() as int)
    &&& forall|k: int|
        0 <= k < copied.len() ==> after[(#[trigger] copied[k]).1]@ == copied_bytes(
            records,
            entries,
            before,
            copied,
            k,
        )
    &&& forall|j: int|
        0 <= j < records.len() && (#[trigger] copies[j]).raw_data is Some ==> if is_named(
            records,
            j,
        ) {
            exists|k: int|
                0 <= k < copied.len() && #[trigger] copied[k] == (
                    records[j].path@,
                    (copies[j].raw_data->0).id(),
                )
        } else {
            &&& after[(copies[j].raw_data->0).id()]@ == before[(records[j].raw_data->0).id()]@
            &&& forall|k: int|
                0 <= k < copied.len() ==> (#[trigger] copied[k]).1 != (copies[j].raw_data->0).id()
        }
}

/// Every fork of an index is new, and no two paths share one.
pub open spec fn forks_above(entries: ForkEntries, fork_count: int, new_fork_count: int) -> bool {
    &&& forall|i: int|
        0 <= i < entries.len() ==> fork_count <= (#[trigger] entries[i]).1 < new_fork_count
    &&& forall|i: int, j: int|
        0 <= i < j < entries.len() ==> (#[trigger] entries[i]).1 != (#[trigger] entries[j]).1
}

proof fn lemma_last_with_fork(records: Seq<ProcessVfsResourceFileRecord>, path: Seq<char>)
    ensures
        last_with_fork(records, path) < records.len(),
        last_with_fork(records, path) >= 0 ==> records[last_with_fork(records, path)].path@ == path
            && records[last_with_fork(records, path)].raw_data is Some,
        last_with_fork(records, path) < 0 ==> forall|j: int|
            0 <= j < records.len() && (#[trigger] records[j]).raw_data is Some ==> records[j].path@
                != path,
    decreases records.len(),
{
    if records.len() > 0 {
        lemma_last_with_fork(records.drop_last(), path);
        assert forall|j: int|
            0 <= j < records.len() && (#[trigger] records[j]).raw_data is Some
                && last_with_fork(records, path) < 0 implies records[j].path@ != path by {
            if j < records.len() - 1 {
                assert(records.drop_last()[j] == records[j]);
            }
        }
    }
}

/// One more record, with its copy, was added.
#[verifier::rlimit(60)]
proof fn lemma_record_added(
    records: Seq<ProcessVfsResourceFileRecord>,
    before: Seq<Vec<u8>>,
    copies: Seq<ProcessVfsResourceFileRecord>,
    copied: ForkEntries,
    now: Seq<Vec<u8>>,
    record: ProcessVfsResourceFileRecord,
    copy: ProcessVfsResourceFileRecord,
    pushed: ForkEntries,
    after: Seq<Vec<u8>>,
)
    requires
        resource_copy(records, Seq::empty(), before, copies, copied, now),
        crate::forks::one_fork_per_path(copied),
        before.len() <= now.len(),
        crate::cells::cells_extend(now, after),
        resource_file_copied(record, copy, now.len() as int, after.len() as int),
        match copy.raw_data {
            Some(fork) => {
                &&& fork.id() == now.len()
                &&& after.len() == now.len() + 1
                &&& after.last()@ == before[(record.raw_data->0).id()]@
                &&& pushed == if record.path@.len() == 0 {
                    copied
                } else {
                    crate::forks::fork_inserted(copied, record.path@, fork.id())
                }
            },
            None => if record.path@.len() == 0 || crate::forks::entry_index(copied, record.path@)
                >= 0 {
                pushed == copied && after.len() == now.len()
            } else {
                &&& pushed == copied.push((record.path@, now.len() as int))
                &&& after.len() == now.len() + 1
                &&& after.last()@.len() == 0
            },
        },
    ensures
        resource_copy(
            records.push(record),
            Seq::empty(),
            before,
            copies.push(copy),
            pushed,
            after,
        ),
{
    let all = records.push(record);
    let all_copies = copies.push(copy);
    let path = record.path@;
    let at = crate::forks::entry_index(copied, path);
    let paths = record_paths(records);
    crate::forks::lemma_entry_index(copied, path);
    assert(all.drop_last() =~= records);
    assert(paths_of(copied) == paths);
    assert(paths.contains(path) == (at >= 0)) by {
        if at >= 0 {
            assert(paths[at] == path);
        } else if paths.contains(path) {
            let i = choose|i: int| 0 <= i < paths.len() && paths[i] == path;
            assert(copied[i].0 == path);
        }
    }
    assert(paths_of(pushed) =~= record_paths(all));
    assert(joined_paths(record_paths(all), Seq::empty()) == record_paths(all));
    assert forall|j: int| 0 <= j < all.len() implies resource_file_copied(
        all[j],
        #[trigger] all_copies[j],
        before.len() as int,
        after.len() as int,
    ) by {
        if j < records.len() {
            assert(resource_file_copied(
                records[j],
                copies[j],
                before.len() as int,
                now.len() as int,
            ));
        }
    }
    assert forall|k: int| 0 <= k < pushed.len() implies after[(#[trigger] pushed[k]).1]@
        == copied_bytes(all, Seq::empty(), before, pushed, k) by {
        lemma_last_with_fork(records, pushed[k].0);
        if k < copied.len() && pushed[k] == copied[k] {
            assert(now[copied[k].1]@ == copied_bytes(records, Seq::empty(), before, copied, k));
            assert(after[copied[k].1] == now[copied[k].1]);
            if pushed[k].0 == path && record.raw_data is Some && path.len() > 0 {
                assert(at >= 0 && k == at);
            }
            if path.len() == 0 && pushed[k].0 == path {
                lemma_record_paths(records);
                assert(paths[k] == path);
            }
        } else {
            assert(pushed[k].0 == path);
            if record.raw_data is None && last_with_fork(records, path) >= 0 {
                lemma_named_record(records, last_with_fork(records, path));
            }
        }
    }
    assert forall|j: int|
        0 <= j < all.len() && (#[trigger] all_copies[j]).raw_data is Some implies if is_named(
        all,
        j,
    ) {
        exists|k: int|
            0 <= k < pushed.len() && #[trigger] pushed[k] == (
                all[j].path@,
                (all_copies[j].raw_data->0).id(),
            )
    } else {
        &&& after[(all_copies[j].raw_data->0).id()]@ == before[(all[j].raw_data->0).id()]@
        &&& forall|k: int|
            0 <= k < pushed.len() ==> (#[trigger] pushed[k]).1 != (all_copies[j].raw_data->0).id()
    } by {
        if j == records.len() {
            if path.len() > 0 {
                assert(last_with_fork(all, path) == j);
                if at >= 0 {
                    assert(pushed[at] == (path, (copy.raw_data->0).id()));
                } else {
                    assert(pushed[copied.len() as int] == (path, (copy.raw_data->0).id()));
                }
            }
        } else {
            let id = (copies[j].raw_data->0).id();
            assert(copies[j].raw_data is Some);
            assert(resource_file_copied(
                records[j],
                copies[j],
                before.len() as int,
                now.len() as int,
            ));
            lemma_last_with_fork(records, records[j].path@);
            if is_named(records, j) {
                let k = choose|k: int|
                    0 <= k < copied.len() && #[trigger] copied[k] == (records[j].path@, id);
                if is_named(all, j) {
                    assert(pushed[k] == copied[k]);
                } else {
                    assert(records[j].path@ == path && record.raw_data is Some);
                    assert(copied[k].0 == path);
                    assert(k == at);
                    assert(now[copied[k].1]@ == copied_bytes(
                        records,
                        Seq::empty(),
                        before,
                        copied,
                        k,
                    ));
                    assert forall|m: int| 0 <= m < pushed.len() implies (#[trigger] pushed[m]).1
                        != id by {
                        if m != at {
                            assert(copied[m].1 != copied[k].1);
                        }
                    }
                }
            } else {
                assert(!is_named(all, j));
                assert forall|m: int| 0 <= m < pushed.len() implies (#[trigger] pushed[m]).1
                    != id by {
                    if m < copied.len() && pushed[m] == copied[m] {
                        assert(copied[m].1 != id);
                    }
                }
            }
        }
    }
}

/// The paths of records are not empty.
proof fn lemma_record_paths(records: Seq<ProcessVfsResourceFileRecord>)
    ensures
        forall|i: int|
            0 <= i < record_paths(records).len() ==> (#[trigger] record_paths(records)[i]).len() > 0,
    decreases records.len(),
{
    if records.len() > 0 {
        let paths = record_paths(records.drop_last());
        lemma_record_paths(records.drop_last());
        assert forall|i: int| 0 <= i < record_paths(records).len() implies (
        #[trigger] record_paths(records)[i]).len() > 0 by {
            if i < paths.len() {
                assert(record_paths(records)[i] == paths[i]);
            }
        }
    }
}

/// The path of a record is among the paths.
proof fn lemma_named_record(records: Seq<ProcessVfsResourceFileRecord>, j: int)
    requires
        0 <= j < records.len(),
        records[j].path@.len() > 0,
    ensures
        record_paths(records).contains(records[j].path@),
    decreases records.len(),
{
    let paths = record_paths(records.drop_last());
    let path = records.last().path@;
    if j < records.len() - 1 {
        assert(records.drop_last()[j] == records[j]);
        lemma_named_record(records.drop_last(), j);
        let at = choose|at: int| 0 <= at < paths.len() && paths[at] == records[j].path@;
        assert(record_paths(records)[at] == records[j].path@);
    } else if !paths.contains(path) {
        assert(record_paths(records)[paths.len() as int] == path);
    }
}

/// A path is found but for case exactly where some path agrees with it.
proof fn lemma_names_path(entries: ForkEntries, path: Seq<char>)
    ensures
        names_path(paths_of(entries), path) == (crate::forks::named_index(entries, path) >= 0),
{
    let index = crate::forks::named_index(entries, path);
    crate::forks::lemma_named_index(entries, path);
    if index >= 0 {
        assert(crate::text::same_name(paths_of(entries)[index], path));
    } else if names_path(paths_of(entries), path) {
        let i = choose|i: int|
            0 <= i < paths_of(entries).len() && crate::text::same_name(
                #[trigger] paths_of(entries)[i],
                path,
            );
        assert(!crate::text::same_name(entries[i].0, path));
    }
}

/// A further entry leaves the names that were found before.
proof fn lemma_named_index_pushed(entries: ForkEntries, path: Seq<char>, entry: (Seq<char>, int))
    ensures
        crate::forks::named_index(entries, path) >= 0 ==> crate::forks::named_index(
            entries.push(entry),
            path,
        ) == crate::forks::named_index(entries, path),
        crate::forks::named_index(entries, path) < 0 && crate::text::same_name(entry.0, path)
            ==> crate::forks::named_index(entries.push(entry), path) == entries.len(),
{
    let after = entries.push(entry);
    crate::forks::lemma_named_index(entries, path);
    crate::forks::lemma_named_index(after, path);
    let first = crate::forks::named_index(entries, path);
    let now = crate::forks::named_index(after, path);
    if first >= 0 {
        assert(after[first] == entries[first]);
        assert(crate::text::same_name(after[first].0, path));
        if now < 0 || now > first {
            assert(!crate::text::same_name(after[first].0, path));
        } else if now < first {
            assert(after[now] == entries[now]);
        }
    } else if crate::text::same_name(entry.0, path) {
        assert(after[entries.len() as int] == entry);
        if 0 <= now < entries.len() {
            assert(after[now] == entries[now]);
        }
    }
}

/// Every entry of a list leads to an entry of the copy.
pub open spec fn all_named(entries: ForkEntries, copied: ForkEntries) -> bool {
    forall|i: int|
        0 <= i < entries.len() ==> crate::forks::named_index(copied, (#[trigger] entries[i]).0) >= 0
}

proof fn lemma_source_entry(entries: ForkEntries, copied: ForkEntries, k: int)
    ensures
        source_entry(entries, copied, k) < entries.len(),
        source_entry(entries, copied, k) >= 0 ==> crate::forks::named_index(
            copied,
            entries[source_entry(entries, copied, k)].0,
        ) == k,
        source_entry(entries, copied, k) < 0 ==> forall|i: int|
            0 <= i < entries.len() ==> crate::forks::named_index(copied, (#[trigger] entries[i]).0)
                != k,
    decreases entries.len(),
{
    if entries.len() > 0 {
        lemma_source_entry(entries.drop_last(), copied, k);
        assert forall|i: int|
            0 <= i < entries.len() && source_entry(entries, copied, k) < 0 implies crate::forks::named_index(
            copied,
            (#[trigger] entries[i]).0,
        ) != k by {
            if i < entries.len() - 1 {
                assert(entries.drop_last()[i] == entries[i]);
            }
        }
    }
}

/// A further entry of the copy leaves what the others came from.
proof fn lemma_source_entry_pushed(
    entries: ForkEntries,
    copied: ForkEntries,
    entry: (Seq<char>, int),
    k: int,
)
    requires
        all_named(entries, copied),
    ensures
        source_entry(entries, copied.push(entry), k) == source_entry(entries, copied, k),
    decreases entries.len(),
{
    if entries.len() > 0 {
        assert(entries.last() == entries[entries.len() - 1]);
        lemma_named_index_pushed(copied, entries.last().0, entry);
        assert forall|i: int| 0 <= i < entries.drop_last().len() implies crate::forks::named_index(
            copied,
            (#[trigger] entries.drop_last()[i]).0,
        ) >= 0 by {
            assert(entries.drop_last()[i] == entries[i]);
        }
        lemma_source_entry_pushed(entries.drop_last(), copied, entry, k);
    }
}

/// One more entry of the index was carried over.
#[verifier::rlimit(60)]
proof fn lemma_entry_carried(
    records: Seq<ProcessVfsResourceFileRecord>,
    entries: ForkEntries,
    before: Seq<Vec<u8>>,
    copies: Seq<ProcessVfsResourceFileRecord>,
    copied: ForkEntries,
    now: Seq<Vec<u8>>,
    entry: (Seq<char>, int),
    carried: ForkEntries,
    after: Seq<Vec<u8>>,
)
    requires
        resource_copy(records, entries, before, copies, copied, now),
        all_named(entries, copied),
        before.len() <= now.len(),
        ({
            let index = crate::forks::named_index(copied, entry.0);
            if index >= 0 {
                &&& carried == copied
                &&& crate::cells::only_cell_changed(now, after, copied[index].1)
                &&& after[copied[index].1]@ == before[entry.1]@
            } else {
                &&& carried == copied.push((entry.0, now.len() as int))
                &&& crate::cells::cells_extend(now, after)
                &&& after.len() == now.len() + 1
                &&& after.last()@ == before[entry.1]@
            }
        }),
    ensures
        resource_copy(records, entries.push(entry), before, copies, carried, after),
        all_named(entries.push(entry), carried),
{
    let all = entries.push(entry);
    let index = crate::forks::named_index(copied, entry.0);
    let new = (entry.0, now.len() as int);
    assert(all.drop_last() =~= entries);
    crate::forks::lemma_named_index(copied, entry.0);
    lemma_names_path(copied, entry.0);
    crate::text::same_name_is_an_equivalence(entry.0, entry.0, entry.0);
    if index < 0 {
        lemma_named_index_pushed(copied, entry.0, new);
    }
    assert(paths_of(carried) =~= joined_paths(record_paths(records), all));
    assert forall|i: int| 0 <= i < all.len() implies crate::forks::named_index(
        carried,
        (#[trigger] all[i]).0,
    ) >= 0 by {
        if i < entries.len() {
            assert(all[i] == entries[i]);
            lemma_named_index_pushed(copied, entries[i].0, new);
        }
    }
    assert forall|k: int| 0 <= k < carried.len() implies after[(#[trigger] carried[k]).1]@
        == copied_bytes(records, all, before, carried, k) by {
        if index < 0 {
            lemma_source_entry_pushed(entries, copied, new, k);
        }
        lemma_source_entry(entries, copied, k);
        if k < copied.len() {
            assert(carried[k] == copied[k]);
            assert(now[copied[k].1]@ == copied_bytes(records, entries, before, copied, k));
            if index >= 0 && k != index {
                if k < index {
                    assert(copied[k].1 != copied[index].1);
                } else {
                    assert(copied[index].1 != copied[k].1);
                }
            }
        }
    }
    assert forall|j: int| 0 <= j < records.len() implies resource_file_copied(
        records[j],
        #[trigger] copies[j],
        before.len() as int,
        after.len() as int,
    ) by {
        assert(resource_file_copied(
            records[j],
            copies[j],
            before.len() as int,
            now.len() as int,
        ));
    }
    assert forall|j: int|
        0 <= j < records.len() && (#[trigger] copies[j]).raw_data is Some implies if is_named(
        records,
        j,
    ) {
        exists|k: int|
            0 <= k < carried.len() && #[trigger] carried[k] == (
                records[j].path@,
                (copies[j].raw_data->0).id(),
            )
    } else {
        &&& after[(copies[j].raw_data->0).id()]@ == before[(records[j].raw_data->0).id()]@
        &&& forall|k: int|
            0 <= k < carried.len() ==> (#[trigger] carried[k]).1 != (copies[j].raw_data->0).id()
    } by {
        let id = (copies[j].raw_data->0).id();
        assert(resource_file_copied(
            records[j],
            copies[j],
            before.len() as int,
            now.len() as int,
        ));
        if is_named(records, j) {
            let k = choose|k: int|
                0 <= k < copied.len() && #[trigger] copied[k] == (records[j].path@, id);
            assert(carried[k] == (records[j].path@, id));
        } else {
            if index >= 0 {
                assert(copied[index].1 != id);
            }
            assert forall|k: int| 0 <= k < carried.len() implies (#[trigger] carried[k]).1
                != id by {
                if k < copied.len() {
                    assert(carried[k] == copied[k]);
                }
            }
        }
    }
}

impl ProcessVfsResourceFileRecords {
    /// Every record's fork and every fork of the index exists.
    pub open spec fn forks_exist(
        &self,
        maps: &SharedCells<ProcessForkMap>,
        forks: &SharedCells<Vec<u8>>,
    ) -> bool {
        &&& maps@[self.resource_forks.id()].valid(forks)
        &&& forall|i: int|
            0 <= i < self.records@.len() ==> match (#[trigger] self.records@[i]).raw_data {
                Some(fork) => fork.valid(forks),
                None => true,
            }
    }

    /// Copies of the records in an index of their own, in which each path
    /// names its record's copied fork.
    fn copied_records(
        &self,
        maps: &mut SharedCells<ProcessForkMap>,
        forks: &mut SharedCells<Vec<u8>>,
    ) -> (copy: Self)
        requires
            self.valid(old(maps)),
            self.forks_exist(old(maps), old(forks)),
        ensures
            copy.valid(final(maps)),
            copy.resource_forks.id() == old(maps)@.len(),
            crate::cells::cells_extend(old(maps)@, final(maps)@),
            final(maps)@.len() == old(maps)@.len() + 1,
            crate::cells::cells_extend(old(forks)@, final(forks)@),
            resource_copy(
                self.records@,
                Seq::empty(),
                old(forks)@,
                copy.records@,
                final(maps)@[copy.resource_forks.id()]@,
                final(forks)@,
            ),
    {
        let ghost start = forks@;
        let mut copy = ProcessVfsResourceFileRecords::new(maps);
        let mut i: usize = 0;
        proof {
            let entries = maps@[copy.resource_forks.id()]@;
            assert(self.records@.take(0) =~= Seq::empty());
            assert(copy.records@ =~= Seq::empty());
            assert(paths_of(entries) =~= Seq::<Seq<char>>::empty());
        }
        while i < self.records.len()
            invariant
                i <= self.records@.len(),
                forall|j: int|
                    0 <= j < self.records@.len() ==> match (#[trigger] self.records@[j]).raw_data {
                        Some(fork) => 0 <= fork.id() < start.len(),
                        None => true,
                    },
                crate::cells::cells_extend(start, forks@),
                crate::cells::cells_extend(old(maps)@, maps@),
                maps@.len() == old(maps)@.len() + 1,
                copy.resource_forks.id() == old(maps)@.len(),
                copy.valid(maps),
                resource_copy(
                    self.records@.take(i as int),
                    Seq::empty(),
                    start,
                    copy.records@,
                    maps@[copy.resource_forks.id()]@,
                    forks@,
                ),
            decreases self.records@.len() - i,
        {
            let record = &self.records[i];
            let ghost now = forks@;
            let raw_data = match &record.raw_data {
                Some(fork) => {
                    assert(fork.valid(forks));
                    Some(fork.detached_clone(forks))
                },
                None => None,
            };
            let copied = ProcessVfsResourceFileRecord {
                path: record.path.clone(),
                creator: record.creator,
                file_type: record.file_type,
                finder_flags: record.finder_flags,
                resource_len: record.resource_len,
                raw_data,
                map_attrs: record.map_attrs,
                dirty: record.dirty,
            };
            let ghost entries = maps@[copy.resource_forks.id()]@;
            let ghost copies = copy.records@;
            copy.push(maps, forks, copied);
            proof {
                assert(self.records@.take(i + 1) =~= self.records@.take(i as int).push(*record));
                assert(copy.records@ =~= copies.push(copied));
                lemma_record_added(
                    self.records@.take(i as int),
                    start,
                    copies,
                    entries,
                    now,
                    *record,
                    copied,
                    maps@[copy.resource_forks.id()]@,
                    forks@,
                );
            }
            i += 1;
        }
        assert(self.records@.take(self.records@.len() as int) =~= self.records@);
        copy
    }

    /// A copy with forks of its own.
    pub fn detached_clone(
        &self,
        maps: &mut SharedCells<ProcessForkMap>,
        forks: &mut SharedCells<Vec<u8>>,
    ) -> (copy: Self)
        requires
            self.valid(old(maps)),
            self.forks_exist(old(maps), old(forks)),
        ensures
            copy.valid(final(maps)),
            copy.forks_exist(final(maps), final(forks)),
            copy.resource_forks.id() == old(maps)@.len(),
            crate::cells::cells_extend(old(maps)@, final(maps)@),
            final(maps)@.len() == old(maps)@.len() + 1,
            crate::cells::cells_extend(old(forks)@, final(forks)@),
            resource_copy(
                self.records@,
                old(maps)@[self.resource_forks.id()]@,
                old(forks)@,
                copy.records@,
                final(maps)@[copy.resource_forks.id()]@,
                final(forks)@,
            ),
    {
        let entries = maps.get(&self.resource_forks).shared_entries();
        let ghost start = forks@;
        let mut copy = self.copied_records(maps, forks);
        let count: usize = entries.len();
        let mut i: usize = 0;
        assert(entries@.take(0) =~= Seq::empty());
        while i < count
            invariant
                i <= count,
                count == entries@.len(),
                entries.valid(forks),
                forall|j: int| 0 <= j < entries@.len() ==> 0 <= (#[trigger] entries@[j]).1 < start.len(),
                crate::cells::cells_extend(start, forks@),
                crate::cells::cells_extend(old(maps)@, maps@),
                maps@.len() == old(maps)@.len() + 1,
                copy.resource_forks.id() == old(maps)@.len(),
                copy.valid(maps),
                all_named(entries@.take(i as int), maps@[copy.resource_forks.id()]@),
                resource_copy(
                    self.records@,
                    entries@.take(i as int),
                    start,
                    copy.records@,
                    maps@[copy.resource_forks.id()]@,
                    forks@,
                ),
            decreases count - i,
        {
            let (path, fork) = entries.entry_at(i);
            assert(entries@[i as int].1 == fork.id());
            let bytes = crate::guest_memory::copy_bytes(fork.as_bytes(forks));
            let ghost present = maps@[copy.resource_forks.id()]@;
            let ghost now = forks@;
            proof {
                crate::forks::lemma_named_index(present, path@);
            }
            copy.update_fork(maps, forks, path.as_str(), &bytes);
            proof {
                assert(entries@.take(i + 1) =~= entries@.take(i as int).push(entries@[i as int]));
                lemma_entry_carried(
                    self.records@,
                    entries@.take(i as int),
                    start,
                    copy.records@,
                    present,
                    now,
                    entries@[i as int],
                    maps@[copy.resource_forks.id()]@,
                    forks@,
                );
            }
            i += 1;
        }
        assert(entries@.take(count as int) =~= entries@);
        proof {
            assert forall|j: int| 0 <= j < copy.records@.len() implies match (
            #[trigger] copy.records@[j]).raw_data {
                Some(fork) => fork.valid(forks),
                None => true,
            } by {
                assert(resource_file_copied(
                    self.records@[j],
                    copy.records@[j],
                    start.len() as int,
                    forks@.len() as int,
                ));
            }
        }
        copy
    }
}

/// The paths of a copy are paths of its index where those of the records are.
proof fn lemma_joined_paths(paths: Seq<Seq<char>>, entries: ForkEntries)
    ensures
        forall|i: int|
            0 <= i < joined_paths(paths, entries).len() ==> paths.contains(
                #[trigger] joined_paths(paths, entries)[i],
            ) || paths_of(entries).contains(joined_paths(paths, entries)[i]),
        forall|i: int|
            0 <= i < entries.len() ==> names_path(
                joined_paths(paths, entries),
                (#[trigger] entries[i]).0,
            ),
    decreases entries.len(),
{
    if entries.len() > 0 {
        let rest = entries.drop_last();
        let before = joined_paths(paths, rest);
        let joined = joined_paths(paths, entries);
        lemma_joined_paths(paths, rest);
        crate::text::same_name_is_an_equivalence(
            entries.last().0,
            entries.last().0,
            entries.last().0,
        );
        assert forall|i: int| 0 <= i < joined.len() implies paths.contains(#[trigger] joined[i])
            || paths_of(entries).contains(joined[i]) by {
            if i < before.len() {
                assert(joined[i] == before[i]);
                if paths_of(rest).contains(before[i]) {
                    let at = choose|at: int|
                        0 <= at < paths_of(rest).len() && paths_of(rest)[at] == before[i];
                    assert(paths_of(entries)[at] == before[i]);
                }
            } else {
                assert(paths_of(entries)[entries.len() - 1] == joined[i]);
            }
        }
        assert forall|i: int| 0 <= i < entries.len() implies names_path(
            joined,
            (#[trigger] entries[i]).0,
        ) by {
            if i < rest.len() {
                assert(rest[i] == entries[i]);
                let at = choose|at: int|
                    0 <= at < before.len() && crate::text::same_name(
                        #[trigger] before[at],
                        rest[i].0,
                    );
                assert(joined[at] == before[at]);
            } else if !names_path(before, entries.last().0) {
                assert(joined[before.len() as int] == entries[i].0);
            }
        }
    } else {
        assert forall|i: int| 0 <= i < paths.len() implies paths.contains(#[trigger] paths[i]) by {}
    }
}

proof fn lemma_record_paths_recorded(records: Seq<ProcessVfsResourceFileRecord>)
    ensures
        forall|i: int|
            0 <= i < record_paths(records).len() ==> exists|j: int|
                0 <= j < records.len() && (#[trigger] records[j]).path@ == (
                #[trigger] record_paths(records)[i]),
    decreases records.len(),
{
    if records.len() > 0 {
        let rest = records.drop_last();
        let paths = record_paths(records);
        lemma_record_paths_recorded(rest);
        assert forall|i: int| 0 <= i < paths.len() implies exists|j: int|
            0 <= j < records.len() && (#[trigger] records[j]).path@ == (#[trigger] paths[i]) by {
            if i < record_paths(rest).len() {
                let j = choose|j: int|
                    0 <= j < rest.len() && (#[trigger] rest[j]).path@ == record_paths(rest)[i];
                assert(records[j].path@ == paths[i]);
            } else {
                assert(records[records.len() - 1].path@ == paths[i]);
            }
        }
    }
}

/// The path of every record that has one is in the index.
pub open spec fn index_has_records(
    records: Seq<ProcessVfsResourceFileRecord>,
    entries: ForkEntries,
) -> bool {
    forall|j: int|
        0 <= j < records.len() && (#[trigger] records[j]).path@.len() > 0 ==> paths_of(
            entries,
        ).contains(records[j].path@)
}

/// No two paths of an index agree but for case.
pub open spec fn names_apart(entries: ForkEntries) -> bool {
    forall|i: int, j: int|
        0 <= i < entries.len() && 0 <= j < entries.len() && i != j ==> !crate::text::same_name(
            (#[trigger] entries[i]).0,
            (#[trigger] entries[j]).0,
        )
}

#[verifier::rlimit(40)]
proof fn lemma_copy_answers(
    records: Seq<ProcessVfsResourceFileRecord>,
    entries: ForkEntries,
    before: Seq<Vec<u8>>,
    copies: Seq<ProcessVfsResourceFileRecord>,
    copied: ForkEntries,
    after: Seq<Vec<u8>>,
    path: Seq<char>,
)
    requires
        resource_copy(records, entries, before, copies, copied, after),
        names_apart(entries),
        index_has_records(records, entries),
    ensures
        (crate::forks::entry_index(copied, path) >= 0) == (crate::forks::entry_index(entries, path)
            >= 0),
        crate::forks::entry_index(entries, path) >= 0 ==> after[copied[crate::forks::entry_index(
            copied,
            path,
        )].1]@ == before[entries[crate::forks::entry_index(entries, path)].1]@,
        forall|k: int|
            0 <= k < copied.len() ==> paths_of(entries).contains((#[trigger] copied[k]).0),
{
    let paths = paths_of(copied);
    lemma_joined_paths(record_paths(records), entries);
    lemma_record_paths_recorded(records);
    lemma_record_paths(records);
    assert forall|k: int| 0 <= k < copied.len() implies paths_of(entries).contains(
        (#[trigger] copied[k]).0,
    ) by {
        assert(paths[k] == copied[k].0);
        if record_paths(records).contains(paths[k]) {
            let i = choose|i: int|
                0 <= i < record_paths(records).len() && record_paths(records)[i] == paths[k];
            let j = choose|j: int|
                0 <= j < records.len() && (#[trigger] records[j]).path@ == record_paths(records)[i];
            assert(records[j].path@.len() > 0);
        }
    }
    crate::forks::lemma_entry_index(copied, path);
    crate::forks::lemma_entry_index(entries, path);
    let there = crate::forks::entry_index(entries, path);
    if there >= 0 {
        assert(names_path(paths, entries[there].0));
        let k = choose|k: int|
            0 <= k < paths.len() && crate::text::same_name(#[trigger] paths[k], path);
        assert(paths_of(entries).contains(copied[k].0));
        let i = choose|i: int|
            0 <= i < paths_of(entries).len() && paths_of(entries)[i] == copied[k].0;
        assert(entries[i].0 == copied[k].0);
        assert(i == there);
        assert(copied[k].0 == path);
    } else if crate::forks::entry_index(copied, path) >= 0 {
        let i = choose|i: int|
            0 <= i < paths_of(entries).len() && paths_of(entries)[i] == path;
        assert(entries[i].0 == path);
    }
    if there >= 0 {
        let k = crate::forks::entry_index(copied, path);
        assert(copied[k].0 == path);
        assert(after[copied[k].1]@ == copied_bytes(records, entries, before, copied, k));
        crate::forks::lemma_named_index(copied, path);
        let named = crate::forks::named_index(copied, path);
        crate::text::same_name_is_an_equivalence(path, path, path);
        assert(named >= 0);
        assert(named == k) by {
            assert(paths_of(entries).contains(copied[named].0));
            let i = choose|i: int|
                0 <= i < paths_of(entries).len() && paths_of(entries)[i] == copied[named].0;
            assert(entries[i].0 == copied[named].0);
            assert(i == there);
        }
        lemma_source_entry(entries, copied, k);
        let source = source_entry(entries, copied, k);
        assert(source >= 0);
        assert(source == there) by {
            crate::forks::lemma_named_index(copied, entries[source].0);
            assert(crate::text::same_name(path, entries[source].0));
        }
    }
}

/// A copy of resource files answers every lookup as its original does, also
/// one that ignores case, where no two paths of the index agree but for case
/// and every record's path is in the index.
pub proof fn copy_answers_as_its_original(
    records: Seq<ProcessVfsResourceFileRecord>,
    entries: ForkEntries,
    before: Seq<Vec<u8>>,
    copies: Seq<ProcessVfsResourceFileRecord>,
    copied: ForkEntries,
    after: Seq<Vec<u8>>,
    path: Seq<char>,
)
    requires
        resource_copy(records, entries, before, copies, copied, after),
        names_apart(entries),
        index_has_records(records, entries),
    ensures
        (crate::forks::entry_index(copied, path) >= 0) == (crate::forks::entry_index(entries, path)
            >= 0),
        crate::forks::entry_index(entries, path) >= 0 ==> after[copied[crate::forks::entry_index(
            copied,
            path,
        )].1]@ == before[entries[crate::forks::entry_index(entries, path)].1]@,
        (crate::forks::named_index(copied, path) >= 0) == (crate::forks::named_index(entries, path)
            >= 0),
        crate::forks::named_index(entries, path) >= 0 ==> after[copied[crate::forks::named_index(
            copied,
            path,
        )].1]@ == before[entries[crate::forks::named_index(entries, path)].1]@,
{
    lemma_copy_answers(records, entries, before, copies, copied, after, path);
    crate::forks::lemma_named_index(copied, path);
    crate::forks::lemma_named_index(entries, path);
    let there = crate::forks::named_index(entries, path);
    let here = crate::forks::named_index(copied, path);
    if there >= 0 {
        let name = entries[there].0;
        lemma_copy_answers(records, entries, before, copies, copied, after, name);
        crate::forks::lemma_entry_index(entries, name);
        crate::forks::lemma_entry_index(copied, name);
        let own = crate::forks::entry_index(entries, name);
        crate::text::same_name_is_an_equivalence(name, name, name);
        assert(own == there);
        let k = crate::forks::entry_index(copied, name);
        assert(crate::text::same_name(copied[k].0, path));
        assert(here >= 0);
        let i = choose|i: int|
            0 <= i < paths_of(entries).len() && paths_of(entries)[i] == copied[here].0;
        assert(entries[i].0 == copied[here].0);
        crate::text::same_name_is_an_equivalence(name, path, entries[i].0);
        crate::text::same_name_is_an_equivalence(entries[i].0, path, name);
        assert(i == there);
        assert(copied[here].0 == name);
        assert(here == k);
    } else if here >= 0 {
        let i = choose|i: int|
            0 <= i < paths_of(entries).len() && paths_of(entries)[i] == copied[here].0;
        assert(entries[i].0 == copied[here].0);
        assert(crate::text::same_name(entries[i].0, path));
    }
}

/// Further forks leave a copy as it is.
pub(crate) proof fn lemma_more_forks(
    records: Seq<ProcessVfsResourceFileRecord>,
    entries: ForkEntries,
    before: Seq<Vec<u8>>,
    copies: Seq<ProcessVfsResourceFileRecord>,
    copied: ForkEntries,
    after: Seq<Vec<u8>>,
    later: Seq<Vec<u8>>,
)
    requires
        resource_copy(records, entries, before, copies, copied, after),
        crate::cells::cells_extend(after, later),
    ensures
        resource_copy(records, entries, before, copies, copied, later),
{
    assert forall|j: int| 0 <= j < records.len() implies resource_file_copied(
        records[j],
        #[trigger] copies[j],
        before.len() as int,
        later.len() as int,
    ) && (copies[j].raw_data matches Some(fork) ==> later[fork.id()] == after[fork.id()]) by {
        assert(resource_file_copied(
            records[j],
            copies[j],
            before.len() as int,
            after.len() as int,
        ));
    }
}

} // verus!
