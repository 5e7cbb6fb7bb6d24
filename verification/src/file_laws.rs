//! What becomes of files, forks and resources that are added, renamed, deleted
//! or joined.

use crate::file_catalogue::FilesModel;
use crate::forks::ForkEntries;
use crate::resource_manager::{ProcessResourcePolicyState, ProcessVfsResourceRecord};
use crate::vfs::{
    FileIndex, ProcessVfsDirectory, ProcessVfsFileRecord, ProcessVfsResourceFileRecord, VfsEntry,
};
use crate::vfs_resources::ResourceFileIndex;
use vstd::prelude::*;

verus! {

/// Forks that join take nothing away: the paths that are there keep their
/// forks, every other path is there afterwards but for case, only entries of
/// the others are added, and no added path agrees with one before it.
pub proof fn joined_forks_are_named_once(entries: ForkEntries, others: ForkEntries)
    ensures
        ({
            let joined = crate::forks::forks_merged(entries, others);
            &&& entries.len() <= joined.len()
            &&& joined.take(entries.len() as int) == entries
            &&& forall|k: int|
                entries.len() <= k < joined.len() ==> others.contains(#[trigger] joined[k])
            &&& forall|i: int|
                0 <= i < others.len() ==> exists|k: int|
                    0 <= k < joined.len() && crate::text::same_name(
                        (#[trigger] joined[k]).0,
                        (#[trigger] others[i]).0,
                    )
            &&& forall|a: int, b: int|
                0 <= a < b < joined.len() && entries.len() <= b ==> !crate::text::same_name(
                    (#[trigger] joined[a]).0,
                    (#[trigger] joined[b]).0,
                )
        }),
    decreases others.len(),
{
    let joined = crate::forks::forks_merged(entries, others);
    if others.len() == 0 {
        assert(joined.take(entries.len() as int) =~= entries);
    } else {
        let shorter = others.drop_last();
        let (path, fork) = others.last();
        let before = crate::forks::forks_merged(entries, shorter);
        joined_forks_are_named_once(entries, shorter);
        crate::forks::lemma_named_index(before, path);
        crate::forks::lemma_entry_index(before, path);
        let exact = crate::forks::entry_index(before, path);
        if exact >= 0 {
            crate::text::same_name_is_an_equivalence(path, path, path);
            assert(crate::text::same_name(before[exact].0, path));
        }
        assert(joined.take(entries.len() as int) =~= before.take(entries.len() as int));
        assert forall|k: int| entries.len() <= k < joined.len() implies others.contains(
            #[trigger] joined[k],
        ) by {
            if k < before.len() {
                assert(shorter.contains(before[k]));
                let i = choose|i: int| 0 <= i < shorter.len() && shorter[i] == before[k];
                assert(others[i] == joined[k]);
            } else {
                assert(others[others.len() - 1] == joined[k]);
            }
        }
        assert forall|i: int| 0 <= i < others.len() implies exists|k: int|
            0 <= k < joined.len() && crate::text::same_name(
                (#[trigger] joined[k]).0,
                (#[trigger] others[i]).0,
            ) by {
            if i < shorter.len() {
                assert(shorter[i] == others[i]);
                let k = choose|k: int|
                    0 <= k < before.len() && crate::text::same_name(
                        (#[trigger] before[k]).0,
                        shorter[i].0,
                    );
                assert(joined[k] == before[k]);
            } else {
                let k = crate::forks::named_index(before, path);
                if k >= 0 {
                    assert(joined[k] == before[k]);
                } else {
                    assert(joined[before.len() as int] == (path, fork));
                }
            }
        }
        assert forall|a: int, b: int|
            0 <= a < b < joined.len() && entries.len() <= b implies !crate::text::same_name(
            (#[trigger] joined[a]).0,
            (#[trigger] joined[b]).0,
        ) by {
            assert(joined[a] == before[a]);
            if b < before.len() {
                assert(joined[b] == before[b]);
            }
        }
    }
}

/// A renamed path names the same fork under its new name, and its old name is
/// gone; every other path keeps its fork. Without an entry of the name nothing
/// changes.
pub proof fn renamed_path_keeps_its_fork(
    entries: ForkEntries,
    old_path: Seq<char>,
    new_path: Seq<char>,
    other: Seq<char>,
)
    ensures
        ({
            let at = crate::forks::named_index(entries, old_path);
            let after = crate::forks::fork_renamed(entries, old_path, new_path);
            &&& at < 0 ==> after == entries
            &&& at >= 0 ==> {
                &&& crate::forks::entry_index(after, new_path) >= 0
                &&& after[crate::forks::entry_index(after, new_path)].1 == entries[at].1
                &&& other != new_path && other != entries[at].0 ==> {
                    &&& crate::forks::entry_index(entries, other) < 0
                        <==> crate::forks::entry_index(after, other) < 0
                    &&& crate::forks::entry_index(entries, other) >= 0
                        ==> after[crate::forks::entry_index(after, other)].1
                        == entries[crate::forks::entry_index(entries, other)].1
                }
                &&& crate::forks::one_fork_per_path(entries) && new_path != entries[at].0
                    ==> crate::forks::entry_index(after, entries[at].0) < 0
            }
        }),
{
    let at = crate::forks::named_index(entries, old_path);
    crate::forks::lemma_named_index(entries, old_path);
    if at >= 0 {
        let left = entries.remove(at);
        let fork = entries[at].1;
        crate::forks::inserted_fork_is_found(left, new_path, fork, other);
        crate::forks::inserted_fork_is_found(left, new_path, fork, entries[at].0);
        if other != entries[at].0 {
            lemma_removed_entry(entries, at, other);
        }
        if crate::forks::one_fork_per_path(entries) {
            crate::forks::lemma_entry_index(left, entries[at].0);
            assert forall|i: int| 0 <= i < left.len() implies (#[trigger] left[i]).0
                != entries[at].0 by {
                let k = if i < at {
                    i
                } else {
                    i + 1
                };
                assert(left[i] == entries[k]);
            }
        }
    }
}

proof fn lemma_removed_entry(entries: ForkEntries, at: int, other: Seq<char>)
    requires
        0 <= at < entries.len(),
        entries[at].0 != other,
    ensures
        ({
            let left = entries.remove(at);
            &&& crate::forks::entry_index(entries, other) < 0 <==> crate::forks::entry_index(
                left,
                other,
            ) < 0
            &&& crate::forks::entry_index(entries, other) >= 0
                ==> left[crate::forks::entry_index(left, other)].1
                == entries[crate::forks::entry_index(entries, other)].1
        }),
{
    let left = entries.remove(at);
    crate::forks::lemma_entry_index(entries, other);
    crate::forks::lemma_entry_index(left, other);
    let found = crate::forks::entry_index(entries, other);
    let now = crate::forks::entry_index(left, other);
    if found >= 0 {
        let moved = if found < at {
            found
        } else {
            found - 1
        };
        assert(left[moved] == entries[found]);
        assert(now >= 0 && now <= moved);
        let back = if now < at {
            now
        } else {
            now + 1
        };
        assert(left[now] == entries[back]);
    } else if now >= 0 {
        let back = if now < at {
            now
        } else {
            now + 1
        };
        assert(left[now] == entries[back]);
    }
}

/// A path that is dropped takes no other path's fork along.
pub proof fn dropped_path_spares_the_others(
    entries: ForkEntries,
    path: Seq<char>,
    other: Seq<char>,
)
    requires
        other != path,
    ensures
        ({
            let after = crate::forks::fork_removed(entries, path);
            &&& crate::forks::entry_index(entries, other) < 0 <==> crate::forks::entry_index(
                after,
                other,
            ) < 0
            &&& crate::forks::entry_index(entries, other) >= 0
                ==> after[crate::forks::entry_index(after, other)].1
                == entries[crate::forks::entry_index(entries, other)].1
        }),
{
    crate::forks::lemma_entry_index(entries, path);
    let at = crate::forks::entry_index(entries, path);
    if at >= 0 {
        lemma_removed_entry(entries, at, other);
    }
}

/// A file that is added is the last of the records, and its path names its
/// fork; a file without a path names none. Every other path keeps its fork.
pub proof fn added_file_names_its_fork(
    index: FileIndex<ProcessVfsFileRecord>,
    record: ProcessVfsFileRecord,
    other: Seq<char>,
)
    ensures
        ({
            let after = index.pushed(record);
            let path = record.path@;
            &&& after.records == index.records.push(record)
            &&& path.len() > 0 ==> crate::forks::entry_index(after.forks, path) >= 0
                && after.forks[crate::forks::entry_index(after.forks, path)].1 == record.data.id()
            &&& path.len() == 0 ==> after.forks == index.forks
            &&& other != path ==> {
                &&& crate::forks::entry_index(index.forks, other) < 0
                    <==> crate::forks::entry_index(after.forks, other) < 0
                &&& crate::forks::entry_index(index.forks, other) >= 0
                    ==> after.forks[crate::forks::entry_index(after.forks, other)].1
                    == index.forks[crate::forks::entry_index(index.forks, other)].1
            }
        }),
{
    crate::forks::inserted_fork_is_found(index.forks, record.path@, record.data.id(), other);
}

/// Files that join take nothing away: the records that are there stay, every
/// other path is recorded afterwards but for case, only records of the others
/// are added, no added one has the path of one before it, and the path of each
/// added one names its fork.
pub proof fn joined_files_are_recorded_once(
    index: FileIndex<ProcessVfsFileRecord>,
    records: Seq<ProcessVfsFileRecord>,
)
    ensures
        ({
            let own = index.records.len();
            let joined = index.joined(records);
            &&& own <= joined.records.len()
            &&& joined.records.take(own as int) == index.records
            &&& forall|k: int|
                own <= k < joined.records.len() ==> records.contains(#[trigger] joined.records[k])
            &&& forall|i: int|
                0 <= i < records.len() ==> exists|k: int|
                    0 <= k < joined.records.len() && crate::text::same_name(
                        (#[trigger] joined.records[k]).path@,
                        (#[trigger] records[i]).path@,
                    )
            &&& forall|a: int, b: int|
                0 <= a < b < joined.records.len() && own <= b ==> !crate::text::same_name(
                    (#[trigger] joined.records[a]).path@,
                    (#[trigger] joined.records[b]).path@,
                )
            &&& forall|k: int|
                own <= k < joined.records.len() && (#[trigger] joined.records[k]).path@.len() > 0
                    ==> {
                    let at = crate::forks::entry_index(joined.forks, joined.records[k].path@);
                    at >= 0 && joined.forks[at].1 == joined.records[k].data.id()
                }
        }),
    decreases records.len(),
{
    let own = index.records.len();
    let joined = index.joined(records);
    if records.len() == 0 {
        assert(joined.records.take(own as int) =~= index.records);
    } else {
        let shorter = records.drop_last();
        let last = records.last();
        let before = index.joined(shorter);
        joined_files_are_recorded_once(index, shorter);
        crate::vfs::lemma_record_index(before.records, last.path@);
        let known = crate::vfs::record_index(before.records, last.path@);
        assert(joined.records.take(own as int) =~= before.records.take(own as int));
        assert forall|k: int| own <= k < joined.records.len() implies records.contains(
            #[trigger] joined.records[k],
        ) by {
            if k < before.records.len() {
                assert(shorter.contains(before.records[k]));
                let i = choose|i: int| 0 <= i < shorter.len() && shorter[i] == before.records[k];
                assert(records[i] == joined.records[k]);
            } else {
                assert(records[records.len() - 1] == joined.records[k]);
            }
        }
        assert forall|i: int| 0 <= i < records.len() implies exists|k: int|
            0 <= k < joined.records.len() && crate::text::same_name(
                (#[trigger] joined.records[k]).path@,
                (#[trigger] records[i]).path@,
            ) by {
            if i < shorter.len() {
                assert(shorter[i] == records[i]);
                let k = choose|k: int|
                    0 <= k < before.records.len() && crate::text::same_name(
                        (#[trigger] before.records[k]).path@,
                        shorter[i].path@,
                    );
                assert(joined.records[k] == before.records[k]);
            } else if known >= 0 {
                assert(crate::text::same_name(before.records[known].name(), last.path@));
                assert(joined.records[known] == before.records[known]);
            } else {
                assert(joined.records[before.records.len() as int] == last);
            }
        }
        assert forall|a: int, b: int|
            0 <= a < b < joined.records.len() && own <= b implies !crate::text::same_name(
            (#[trigger] joined.records[a]).path@,
            (#[trigger] joined.records[b]).path@,
        ) by {
            assert(joined.records[a] == before.records[a]);
            if b < before.records.len() {
                assert(joined.records[b] == before.records[b]);
            } else {
                assert(!crate::text::same_name(before.records[a].name(), last.path@));
            }
        }
        assert forall|k: int|
            own <= k < joined.records.len() && (#[trigger] joined.records[k]).path@.len()
                > 0 implies {
            let at = crate::forks::entry_index(joined.forks, joined.records[k].path@);
            at >= 0 && joined.forks[at].1 == joined.records[k].data.id()
        } by {
            if k < before.records.len() {
                assert(joined.records[k] == before.records[k]);
                if known < 0 {
                    assert(!crate::text::same_name(before.records[k].name(), last.path@));
                    crate::text::same_name_is_an_equivalence(last.path@, last.path@, last.path@);
                    added_file_names_its_fork(before, last, before.records[k].path@);
                }
            } else {
                added_file_names_its_fork(before, last, last.path@);
            }
        }
    }
}

/// A renamed file has its new path and counts as changed; the rest of it, and
/// every other file, stays, and the new path names the fork that the old one
/// named. Without a file of the name nothing changes.
pub proof fn renamed_file_keeps_its_contents(
    index: FileIndex<ProcessVfsFileRecord>,
    old_path: Seq<char>,
    new_path: String,
    i: int,
)
    requires
        0 <= i < index.records.len(),
        crate::text::same_name(index.records[i].path@, old_path),
        forall|j: int|
            0 <= j < i ==> !crate::text::same_name((#[trigger] index.records[j]).path@, old_path),
    ensures
        ({
            let after = index.renamed(old_path, new_path);
            let record = after.records[i];
            let at = crate::forks::named_index(index.forks, old_path);
            &&& after.records.len() == index.records.len()
            &&& record.path == new_path
            &&& record.dirty
            &&& record.data == index.records[i].data
            &&& record.file_type == index.records[i].file_type
            &&& record.creator == index.records[i].creator
            &&& record.finder_flags == index.records[i].finder_flags
            &&& forall|j: int|
                0 <= j < index.records.len() && j != i ==> #[trigger] after.records[j]
                    == index.records[j]
            &&& at >= 0 ==> crate::forks::entry_index(after.forks, new_path@) >= 0
                && after.forks[crate::forks::entry_index(after.forks, new_path@)].1
                == index.forks[at].1
        }),
{
    crate::vfs::lemma_record_index(index.records, old_path);
    let found = crate::vfs::record_index(index.records, old_path);
    assert(crate::text::same_name(index.records[i].name(), old_path));
    if found < i {
        assert(!crate::text::same_name(index.records[found].path@, old_path));
    }
    assert(found == i);
    renamed_path_keeps_its_fork(index.forks, old_path, new_path@, new_path@);
}

/// A renamed resource file has its new path and counts as changed; the rest of
/// it, and every other resource file, stays.
pub proof fn renamed_resource_file_keeps_its_contents(
    records: Seq<ProcessVfsResourceFileRecord>,
    old_path: Seq<char>,
    new_path: String,
    i: int,
)
    requires
        0 <= i < records.len(),
        crate::text::same_name(records[i].path@, old_path),
        forall|j: int|
            0 <= j < i ==> !crate::text::same_name((#[trigger] records[j]).path@, old_path),
    ensures
        ({
            let after = crate::vfs_resources::resource_renamed(records, old_path, new_path);
            &&& after.len() == records.len()
            &&& after[i].path == new_path
            &&& after[i].dirty
            &&& after[i].raw_data == records[i].raw_data
            &&& after[i].resource_len == records[i].resource_len
            &&& after[i].file_type == records[i].file_type
            &&& after[i].creator == records[i].creator
            &&& after[i].finder_flags == records[i].finder_flags
            &&& after[i].map_attrs == records[i].map_attrs
            &&& forall|j: int|
                0 <= j < records.len() && j != i ==> #[trigger] after[j] == records[j]
        }),
{
    crate::vfs::lemma_record_index(records, old_path);
    let found = crate::vfs::record_index(records, old_path);
    assert(crate::text::same_name(records[i].name(), old_path));
    if found < i {
        assert(!crate::text::same_name(records[found].path@, old_path));
    }
}

/// A resource file that is added is the last of the records. Its path names
/// its fork; where it brings none, the path keeps the fork that it named, or
/// names a new one.
pub proof fn added_resource_file_names_a_fork(
    index: ResourceFileIndex,
    record: ProcessVfsResourceFileRecord,
)
    ensures
        ({
            let after = index.pushed(record);
            let path = record.path@;
            let at = crate::forks::entry_index(after.forks, path);
            let known = crate::forks::entry_index(index.forks, path);
            &&& after.records == index.records.push(record)
            &&& path.len() == 0 ==> after.forks == index.forks && after.fork_count
                == index.fork_count
            &&& path.len() > 0 ==> at >= 0
            &&& path.len() > 0 && record.raw_data is Some ==> after.forks[at].1 == (
            record.raw_data->0).id() && after.fork_count == index.fork_count
            &&& path.len() > 0 && record.raw_data is None && known >= 0 ==> after.forks
                == index.forks && after.fork_count == index.fork_count
            &&& path.len() > 0 && record.raw_data is None && known < 0 ==> after.forks[at].1
                == index.fork_count && after.fork_count == index.fork_count + 1
        }),
{
    let path = record.path@;
    if let Some(data) = record.raw_data {
        crate::forks::inserted_fork_is_found(index.forks, path, data.id(), path);
    }
    crate::forks::inserted_fork_is_found(index.forks, path, index.fork_count, path);
}

/// Resource files that join take nothing away: the records that are there
/// stay, every other path is recorded afterwards but for case, only records of
/// the others are added, and no added one has the path of one before it.
pub proof fn joined_resource_files_are_recorded_once(
    index: ResourceFileIndex,
    records: Seq<ProcessVfsResourceFileRecord>,
)
    ensures
        ({
            let own = index.records.len();
            let joined = index.joined(records);
            &&& own <= joined.records.len()
            &&& joined.records.take(own as int) == index.records
            &&& forall|k: int|
                own <= k < joined.records.len() ==> records.contains(#[trigger] joined.records[k])
            &&& forall|i: int|
                0 <= i < records.len() ==> exists|k: int|
                    0 <= k < joined.records.len() && crate::text::same_name(
                        (#[trigger] joined.records[k]).path@,
                        (#[trigger] records[i]).path@,
                    )
            &&& forall|a: int, b: int|
                0 <= a < b < joined.records.len() && own <= b ==> !crate::text::same_name(
                    (#[trigger] joined.records[a]).path@,
                    (#[trigger] joined.records[b]).path@,
                )
        }),
    decreases records.len(),
{
    let own = index.records.len();
    let joined = index.joined(records);
    if records.len() == 0 {
        assert(joined.records.take(own as int) =~= index.records);
    } else {
        let shorter = records.drop_last();
        let last = records.last();
        let before = index.joined(shorter);
        joined_resource_files_are_recorded_once(index, shorter);
        crate::vfs::lemma_record_index(before.records, last.path@);
        let known = crate::vfs::record_index(before.records, last.path@);
        assert(joined.records.take(own as int) =~= before.records.take(own as int));
        assert forall|k: int| own <= k < joined.records.len() implies records.contains(
            #[trigger] joined.records[k],
        ) by {
            if k < before.records.len() {
                assert(shorter.contains(before.records[k]));
                let i = choose|i: int| 0 <= i < shorter.len() && shorter[i] == before.records[k];
                assert(records[i] == joined.records[k]);
            } else {
                assert(records[records.len() - 1] == joined.records[k]);
            }
        }
        assert forall|i: int| 0 <= i < records.len() implies exists|k: int|
            0 <= k < joined.records.len() && crate::text::same_name(
                (#[trigger] joined.records[k]).path@,
                (#[trigger] records[i]).path@,
            ) by {
            if i < shorter.len() {
                assert(shorter[i] == records[i]);
                let k = choose|k: int|
                    0 <= k < before.records.len() && crate::text::same_name(
                        (#[trigger] before.records[k]).path@,
                        shorter[i].path@,
                    );
                assert(joined.records[k] == before.records[k]);
            } else if known >= 0 {
                assert(crate::text::same_name(before.records[known].name(), last.path@));
                assert(joined.records[known] == before.records[known]);
            } else {
                assert(joined.records[before.records.len() as int] == last);
            }
        }
        assert forall|a: int, b: int|
            0 <= a < b < joined.records.len() && own <= b implies !crate::text::same_name(
            (#[trigger] joined.records[a]).path@,
            (#[trigger] joined.records[b]).path@,
        ) by {
            assert(joined.records[a] == before.records[a]);
            if b < before.records.len() {
                assert(joined.records[b] == before.records[b]);
            } else {
                assert(!crate::text::same_name(before.records[a].name(), last.path@));
            }
        }
    }
}

/// Two records name one resource: one path but for case, one type, one ID.
pub open spec fn one_resource(a: ProcessVfsResourceRecord, b: ProcessVfsResourceRecord) -> bool {
    crate::text::same_name(a.path@, b.path@) && a.res_type == b.res_type && a.res_id == b.res_id
}

/// Resources that join take nothing away: those that are there stay, every
/// other resource is there afterwards, only resources of the others are added,
/// and no added one is the resource of one before it.
pub proof fn joined_resources_are_recorded_once(
    resources: Seq<ProcessVfsResourceRecord>,
    others: Seq<ProcessVfsResourceRecord>,
)
    ensures
        ({
            let joined = crate::resource_manager::resources_joined(resources, others);
            &&& resources.len() <= joined.len()
            &&& joined.take(resources.len() as int) == resources
            &&& forall|k: int|
                resources.len() <= k < joined.len() ==> others.contains(#[trigger] joined[k])
            &&& forall|i: int|
                0 <= i < others.len() ==> exists|k: int|
                    0 <= k < joined.len() && one_resource(
                        #[trigger] joined[k],
                        #[trigger] others[i],
                    )
            &&& forall|a: int, b: int|
                0 <= a < b < joined.len() && resources.len() <= b ==> !one_resource(
                    #[trigger] joined[a],
                    #[trigger] joined[b],
                )
        }),
    decreases others.len(),
{
    let joined = crate::resource_manager::resources_joined(resources, others);
    if others.len() == 0 {
        assert(joined.take(resources.len() as int) =~= resources);
    } else {
        let shorter = others.drop_last();
        let last = others.last();
        let before = crate::resource_manager::resources_joined(resources, shorter);
        joined_resources_are_recorded_once(resources, shorter);
        assert(joined.take(resources.len() as int) =~= before.take(resources.len() as int));
        assert forall|k: int| resources.len() <= k < joined.len() implies others.contains(
            #[trigger] joined[k],
        ) by {
            if k < before.len() {
                assert(shorter.contains(before[k]));
                let i = choose|i: int| 0 <= i < shorter.len() && shorter[i] == before[k];
                assert(others[i] == joined[k]);
            } else {
                assert(others[others.len() - 1] == joined[k]);
            }
        }
        assert forall|i: int| 0 <= i < others.len() implies exists|k: int|
            0 <= k < joined.len() && one_resource(#[trigger] joined[k], #[trigger] others[i]) by {
            if i < shorter.len() {
                assert(shorter[i] == others[i]);
                let k = choose|k: int|
                    0 <= k < before.len() && one_resource(#[trigger] before[k], shorter[i]);
                assert(joined[k] == before[k]);
            } else if crate::resource_manager::resource_known(before, last) {
                let k = choose|k: int|
                    0 <= k < before.len() && crate::text::same_name(
                        (#[trigger] before[k]).path@,
                        last.path@,
                    ) && before[k].res_type == last.res_type && before[k].res_id == last.res_id;
                assert(joined[k] == before[k]);
            } else {
                assert(joined[before.len() as int] == last);
                crate::text::same_name_is_an_equivalence(last.path@, last.path@, last.path@);
            }
        }
        assert forall|a: int, b: int|
            0 <= a < b < joined.len() && resources.len() <= b implies !one_resource(
            #[trigger] joined[a],
            #[trigger] joined[b],
        ) by {
            assert(joined[a] == before[a]);
            if b < before.len() {
                assert(joined[b] == before[b]);
            }
        }
    }
}

/// An adapter that joins a process takes its resource policy over, unless the
/// process has the policy of a new system and the adapter another one, which
/// then holds for both; policies that both differ from a new system's must
/// agree.
pub proof fn joined_policy_is_the_one_that_was_set(
    policies: Seq<ProcessResourcePolicyState>,
    adapter: int,
    process: int,
)
    requires
        0 <= adapter < policies.len(),
        0 <= process < policies.len(),
    ensures
        ({
            let after = crate::resource_manager::policies_joined(policies, adapter, process);
            let fresh = |policy: ProcessResourcePolicyState| policy.res_load && !policy.res_purge;
            &&& after.len() == policies.len()
            &&& !fresh(policies[process]) ==> after[process] == policies[process]
            &&& fresh(policies[process]) ==> after[process] == policies[adapter]
            &&& forall|i: int|
                0 <= i < policies.len() && i != process ==> #[trigger] after[i] == policies[i]
            &&& crate::resource_manager::policies_joinable(policies, adapter, process) <==> (
            policies[adapter] == policies[process] || fresh(policies[adapter]) || fresh(
                policies[process],
            ))
        }),
{
    let (own, other) = (policies[process], policies[adapter]);
    if own.pristine() && other.pristine() {
        assert(own == other);
    }
}

/// An adapter that joins a process shares its current resource file; where the
/// process has none it takes the adapter's.
pub proof fn joined_current_file_is_the_one_that_was_set(
    current_files: Seq<i16>,
    adapter: int,
    process: int,
)
    requires
        0 <= adapter < current_files.len(),
        0 <= process < current_files.len(),
    ensures
        ({
            let after = crate::resource_manager::currents_joined(current_files, adapter, process);
            &&& after.len() == current_files.len()
            &&& current_files[process] != 0 ==> after[process] == current_files[process]
            &&& current_files[process] == 0 ==> after[process] == current_files[adapter]
            &&& forall|i: int|
                0 <= i < current_files.len() && i != process ==> #[trigger] after[i]
                    == current_files[i]
        }),
{
}

/// Deleting a path leaves every record, fork, entry and lock of other paths
/// alone, and leaves everything alone where a changed file took the path.
pub proof fn deletion_spares_other_paths(
    model: FilesModel,
    path: Seq<char>,
    other: Seq<char>,
    file: ProcessVfsFileRecord,
    resource_file: ProcessVfsResourceFileRecord,
)
    requires
        other != path,
    ensures
        ({
            let after = model.deleted(path);
            &&& model.files.contains(file) && !crate::text::same_name(file.path@, path)
                ==> after.files.contains(file)
            &&& model.resource_files.contains(resource_file) && !crate::text::same_name(
                resource_file.path@,
                path,
            ) ==> after.resource_files.contains(resource_file)
            &&& after.catalogue.metadata.dom().contains(other)
                == model.catalogue.metadata.dom().contains(other)
            &&& model.catalogue.metadata.dom().contains(other) ==> after.catalogue.metadata[other]
                == model.catalogue.metadata[other]
            &&& after.catalogue.next_file_id == model.catalogue.next_file_id
            &&& after.catalogue.next_timestamp == model.catalogue.next_timestamp
            &&& after.locked.contains(other) == model.locked.contains(other)
            &&& crate::forks::entry_index(model.data_forks, other) >= 0
                ==> crate::forks::entry_index(after.data_forks, other) >= 0
                && after.data_forks[crate::forks::entry_index(after.data_forks, other)].1
                == model.data_forks[crate::forks::entry_index(model.data_forks, other)].1
            &&& crate::forks::entry_index(model.resource_forks, other) >= 0
                ==> crate::forks::entry_index(after.resource_forks, other) >= 0
                && after.resource_forks[crate::forks::entry_index(after.resource_forks, other)].1
                == model.resource_forks[crate::forks::entry_index(model.resource_forks, other)].1
        }),
{
    crate::catalogue_laws::records_apart_from_a_path_are_left(model.files, path, file);
    crate::catalogue_laws::records_apart_from_a_path_are_left(
        model.resource_files,
        path,
        resource_file,
    );
    dropped_path_spares_the_others(model.data_forks, path, other);
    dropped_path_spares_the_others(model.resource_forks, path, other);
}

/// A file that was changed since it was published is never deleted by its
/// path, and neither is a resource file.
pub proof fn changed_file_is_not_deleted(model: FilesModel, path: Seq<char>, i: int)
    ensures
        0 <= i < model.files.len() && model.files[i].dirty && crate::text::same_name(
            model.files[i].path@,
            path,
        ) ==> model.deleted(path) == model,
        0 <= i < model.resource_files.len() && model.resource_files[i].dirty
            && crate::text::same_name(model.resource_files[i].path@, path) ==> model.deleted(path)
            == model,
{
}

/// What the classic catalogue says of a path is what its file's record says
/// once it was published: a file with a data fork has a record with the
/// catalogue's type, creator and flags, and so has one with a resource fork.
/// A folder and a path that the catalogue does not have change nothing.
pub proof fn published_catalogue_entry_reaches_the_records(
    model: FilesModel,
    path: String,
    directories: Seq<ProcessVfsDirectory>,
    forks: Seq<Vec<u8>>,
)
    requires
        forall|i: int|
            0 <= i < model.data_forks.len() ==> 0 <= (#[trigger] model.data_forks[i]).1
                <= usize::MAX,
        forall|i: int|
            0 <= i < model.resource_forks.len() ==> 0 <= (#[trigger] model.resource_forks[i]).1
                <= usize::MAX,
    ensures
        ({
            let after = model.classic_published(path, directories, forks);
            let entry = model.catalogue.metadata[path@];
            let applies = model.catalogue.metadata.dom().contains(path@)
                && crate::vfs::record_index(directories, path@) < 0;
            let data = crate::forks::entry_index(model.data_forks, path@);
            let resource = crate::forks::entry_index(model.resource_forks, path@);
            let file = crate::vfs::record_index(after.files, path@);
            let resource_file = crate::vfs::record_index(after.resource_files, path@);
            &&& after.catalogue == model.catalogue && after.locked == model.locked
                && after.data_forks == model.data_forks && after.resource_forks
                == model.resource_forks
            &&& !applies ==> after == model
            &&& applies && data >= 0 ==> {
                &&& file >= 0
                &&& after.files[file].file_type == entry.file_type
                &&& after.files[file].creator == entry.creator
                &&& after.files[file].finder_flags == entry.finder_flags
                &&& crate::vfs::record_index(model.files, path@) >= 0 ==> {
                    &&& after.files.len() == model.files.len()
                    &&& after.files[file].data == model.files[file].data
                    &&& after.files[file].path == model.files[file].path
                    &&& after.files[file].dirty == model.files[file].dirty
                }
                &&& crate::vfs::record_index(model.files, path@) < 0 ==> {
                    &&& after.files.len() == model.files.len() + 1
                    &&& after.files[file].data.id() == model.data_forks[data].1
                    &&& after.files[file].path == path
                    &&& !after.files[file].dirty
                }
            }
            &&& applies && data < 0 ==> after.files == model.files
            &&& applies && resource >= 0 ==> {
                &&& resource_file >= 0
                &&& after.resource_files[resource_file].file_type == entry.file_type
                &&& after.resource_files[resource_file].creator == entry.creator
                &&& after.resource_files[resource_file].finder_flags == entry.finder_flags
                &&& crate::vfs::record_index(model.resource_files, path@) >= 0 ==> {
                    let known = model.resource_files[resource_file];
                    &&& after.resource_files.len() == model.resource_files.len()
                    &&& after.resource_files[resource_file].raw_data == known.raw_data
                    &&& after.resource_files[resource_file].resource_len == known.resource_len
                    &&& after.resource_files[resource_file].map_attrs == known.map_attrs
                    &&& after.resource_files[resource_file].path == known.path
                    &&& after.resource_files[resource_file].dirty == known.dirty
                }
                &&& crate::vfs::record_index(model.resource_files, path@) < 0 ==> {
                    &&& after.resource_files.len() == model.resource_files.len() + 1
                    &&& (after.resource_files[resource_file].raw_data->0).id()
                        == model.resource_forks[resource].1
                    &&& after.resource_files[resource_file].resource_len
                        == forks[model.resource_forks[resource].1]@.len() as u32
                    &&& after.resource_files[resource_file].path == path
                    &&& !after.resource_files[resource_file].dirty
                }
            }
            &&& applies && resource < 0 ==> after.resource_files == model.resource_files
            &&& forall|k: int|
                0 <= k < model.files.len() && k != file ==> #[trigger] after.files[k]
                    == model.files[k]
            &&& forall|k: int|
                0 <= k < model.resource_files.len() && k != resource_file
                    ==> #[trigger] after.resource_files[k] == model.resource_files[k]
        }),
{
    let after = model.classic_published(path, directories, forks);
    let data = crate::forks::entry_index(model.data_forks, path@);
    let resource = crate::forks::entry_index(model.resource_forks, path@);
    crate::text::same_name_is_an_equivalence(path@, path@, path@);
    crate::forks::lemma_entry_index(model.data_forks, path@);
    crate::forks::lemma_entry_index(model.resource_forks, path@);
    crate::vfs::lemma_record_index(model.files, path@);
    crate::vfs::lemma_record_index(model.resource_files, path@);
    crate::vfs::lemma_record_index(after.files, path@);
    crate::vfs::lemma_record_index(after.resource_files, path@);
    let applies = model.catalogue.metadata.dom().contains(path@) && crate::vfs::record_index(
        directories,
        path@,
    ) < 0;
    if applies && data >= 0 {
        let known = crate::vfs::record_index(model.files, path@);
        let at = if known >= 0 {
            known
        } else {
            model.files.len() as int
        };
        assert(crate::text::same_name(after.files[at].name(), path@));
        lemma_same_place(after.files, path@, at);
        if known < 0 {
            crate::cells::lemma_handle_of_id::<Vec<u8>>(model.data_forks[data].1);
        }
    }
    if applies && resource >= 0 {
        let known = crate::vfs::record_index(model.resource_files, path@);
        let at = if known >= 0 {
            known
        } else {
            model.resource_files.len() as int
        };
        assert(crate::text::same_name(after.resource_files[at].name(), path@));
        lemma_same_place(after.resource_files, path@, at);
        if known < 0 {
            crate::cells::lemma_handle_of_id::<Vec<u8>>(model.resource_forks[resource].1);
        }
    }
}

proof fn lemma_same_place<R: VfsEntry>(records: Seq<R>, path: Seq<char>, at: int)
    requires
        0 <= at < records.len(),
        crate::text::same_name(records[at].name(), path),
        forall|i: int|
            0 <= i < at ==> !crate::text::same_name((#[trigger] records[i]).name(), path),
    ensures
        crate::vfs::record_index(records, path) == at,
{
    crate::vfs::lemma_record_index(records, path);
}

/// The forks that stay are those whose path, but for case, is that of a
/// record.
pub proof fn recorded_forks_have_a_record<R: VfsEntry>(
    records: Seq<R>,
    entries: ForkEntries,
    entry: (Seq<char>, int),
    i: int,
)
    ensures
        crate::vfs::recorded_forks(records, entries).contains(entry) ==> entries.contains(entry)
            && exists|k: int|
            0 <= k < records.len() && crate::text::same_name(
                (#[trigger] records[k]).name(),
                entry.0,
            ),
        entries.contains(entry) && 0 <= i < records.len() && crate::text::same_name(
            records[i].name(),
            entry.0,
        ) ==> crate::vfs::recorded_forks(records, entries).contains(entry),
{
    let recorded = |entry: (Seq<char>, int)| crate::vfs::recorded(records, entry.0);
    crate::catalogue_laws::lemma_filter_contains(entries, recorded, entry);
    crate::vfs::lemma_record_index(records, entry.0);
    let found = crate::vfs::record_index(records, entry.0);
    if found >= 0 {
        assert(crate::text::same_name(records[found].name(), entry.0));
    }
}

} // verus!
