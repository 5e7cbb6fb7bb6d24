//! Catalogue records of the virtual file system and the indexes that tie file
//! records to their forks.

use crate::cells::{SharedCells, SharedProcessValue};
use crate::forks::{ForkEntries, ProcessForkBytes, ProcessForkMap};
use crate::lists::retain_list;
use crate::text::equal_ignoring_case;
use vstd::prelude::*;

verus! {

/// A record that a path names.
pub trait VfsEntry: Sized {
    spec fn name(&self) -> Seq<char>;

    fn path_text(&self) -> (path: &str)
        ensures
            path@ == self.name(),
    ;
}

/// A data fork with its Finder information.
pub struct ProcessVfsFileRecord {
    pub path: String,
    pub data: ProcessForkBytes,
    pub creator: u32,
    pub file_type: u32,
    pub finder_flags: u16,
    pub dirty: bool,
}

pub struct ProcessVfsDirectory {
    pub dir_id: u32,
    pub parent_dir_id: u32,
    pub path: String,
    pub creator: u32,
    pub file_type: u32,
    pub finder_flags: u16,
    pub dirty: bool,
}

pub struct ProcessVfsVolumeRecord {
    pub ref_num: i16,
    pub name: String,
    pub root_dir_id: u32,
    pub attributes: u16,
    pub file_count: u16,
    pub allocation_block_count: u16,
    pub allocation_block_size: u32,
    pub clump_size: u32,
    pub free_blocks: u16,
    pub bitmap_start: u16,
    pub allocation_pointer: u16,
    pub allocation_start: u16,
    pub next_catalog_id: u32,
    pub created_date: u32,
    pub modified_date: u32,
}

/// A resource fork with its Finder information.
pub struct ProcessVfsResourceFileRecord {
    pub path: String,
    pub creator: u32,
    pub file_type: u32,
    pub finder_flags: u16,
    pub resource_len: u32,
    pub raw_data: Option<ProcessForkBytes>,
    pub map_attrs: u16,
    pub dirty: bool,
}

/// Catalogue information of a classic path.
#[derive(Debug, Clone, Copy, PartialEq, Eq, Structural)]
pub struct ProcessVfsMetadata {
    pub file_id: u32,
    pub parent_dir_id: u32,
    pub file_type: u32,
    pub creator: u32,
    pub finder_flags: u16,
    pub created_date: u32,
    pub modified_date: u32,
}

impl VfsEntry for ProcessVfsFileRecord {
    open spec fn name(&self) -> Seq<char> {
        self.path@
    }

    fn path_text(&self) -> (path: &str) {
        self.path.as_str()
    }
}

impl VfsEntry for ProcessVfsDirectory {
    open spec fn name(&self) -> Seq<char> {
        self.path@
    }

    fn path_text(&self) -> (path: &str) {
        self.path.as_str()
    }
}

impl VfsEntry for ProcessVfsVolumeRecord {
    open spec fn name(&self) -> Seq<char> {
        self.name@
    }

    fn path_text(&self) -> (path: &str) {
        self.name.as_str()
    }
}

impl VfsEntry for ProcessVfsResourceFileRecord {
    open spec fn name(&self) -> Seq<char> {
        self.path@
    }

    fn path_text(&self) -> (path: &str) {
        self.path.as_str()
    }
}

impl VfsEntry for String {
    open spec fn name(&self) -> Seq<char> {
        self@
    }

    fn path_text(&self) -> (path: &str) {
        self.as_str()
    }
}

/// The first record whose name agrees with `path` but for case, or a negative
/// number.
pub open spec fn record_index<R: VfsEntry>(records: Seq<R>, path: Seq<char>) -> int
    decreases records.len(),
{
    if records.len() == 0 {
        -1
    } else if crate::text::same_name(records[0].name(), path) {
        0
    } else {
        let rest = record_index(records.drop_first(), path);
        if rest < 0 {
            -1
        } else {
            rest + 1
        }
    }
}

pub proof fn lemma_record_index<R: VfsEntry>(records: Seq<R>, path: Seq<char>)
    ensures
        record_index(records, path) < records.len(),
        record_index(records, path) >= 0 ==> crate::text::same_name(
            records[record_index(records, path)].name(),
            path,
        ),
        record_index(records, path) < 0 <==> forall|i: int|
            0 <= i < records.len() ==> !crate::text::same_name((#[trigger] records[i]).name(), path),
        forall|i: int|
            0 <= i < record_index(records, path) ==> !crate::text::same_name(
                (#[trigger] records[i]).name(),
                path,
            ),
    decreases records.len(),
{
    if records.len() > 0 && !crate::text::same_name(records[0].name(), path) {
        let rest = records.drop_first();
        lemma_record_index(rest, path);
        assert forall|i: int|
            0 <= i < records.len() && (record_index(rest, path) < 0 || i < record_index(rest, path)
                + 1) implies !crate::text::same_name((#[trigger] records[i]).name(), path) by {
            if i > 0 {
                assert(rest[i - 1] == records[i]);
            }
        }
    }
}

/// Find the first record whose name agrees with `path` but for case.
pub fn find_record<R: VfsEntry>(records: &Vec<R>, path: &str) -> (found: Option<usize>)
    ensures
        match found {
            Some(i) => i < records@.len() && i == record_index(records@, path@),
            None => record_index(records@, path@) < 0,
        },
{
    let mut i: usize = 0;
    while i < records.len()
        invariant
            i <= records@.len(),
            forall|j: int| 0 <= j < i ==> !crate::text::same_name((#[trigger] records@[j]).name(), path@),
        decreases records@.len() - i,
    {
        if equal_ignoring_case(records[i].path_text(), path) {
            proof {
                lemma_record_index(records@, path@);
                let first = record_index(records@, path@);
                if first < 0 {
                    assert(!crate::text::same_name(records@[i as int].name(), path@));
                } else if first < i {
                    assert(!crate::text::same_name(records@[first].name(), path@));
                } else if first > i {
                    assert(!crate::text::same_name(records@[i as int].name(), path@));
                }
            }
            return Some(i);
        }
        i += 1;
    }
    proof {
        lemma_record_index(records@, path@);
    }
    None
}

/// Whether some record's name agrees with `path` but for case.
pub open spec fn recorded<R: VfsEntry>(records: Seq<R>, path: Seq<char>) -> bool {
    record_index(records, path) >= 0
}

/// The entries whose path some record has, but for case.
pub open spec fn recorded_forks<R: VfsEntry>(records: Seq<R>, entries: ForkEntries) -> ForkEntries {
    entries.filter(|entry: (Seq<char>, int)| recorded(records, entry.0))
}

pub(crate) fn retain_recorded<R: VfsEntry>(map: &mut ProcessForkMap, records: &Vec<R>)
    ensures
        final(map)@ == recorded_forks(records@, old(map)@),
        crate::forks::one_fork_per_path(final(map)@),
{
    let ghost before = map@;
    let ghost accept = |entry: (Seq<char>, int)| recorded(records@, entry.0);
    let keep = |path: &String| -> (kept: bool)
        ensures
            kept == recorded(records@, path@),
        {
            find_record(records, path.as_str()).is_some()
        };
    map.retain(keep);
    proof {
        let marks = crate::lists::marks_of(before, accept);
        assert forall|other: Seq<bool>, paths: Seq<String>|
            #![trigger crate::lists::selected(before, other), paths.len()]
            other.len() == before.len() && paths.len() == other.len() && (forall|i: int|
                0 <= i < other.len() ==> (#[trigger] paths[i])@ == before[i].0 && other[i]
                    == recorded(records@, paths[i]@)) implies other == marks by {
            assert forall|i: int| 0 <= i < other.len() implies other[i] == marks[i] by {
                assert(paths[i]@ == before[i].0);
            }
            assert(other =~= marks);
        }
        crate::lists::lemma_selected(before, accept);
    }
}

/// What a file index holds: the records, and which fork each path names.
#[verifier::ext_equal]
pub struct FileIndex<R> {
    pub records: Seq<R>,
    pub forks: ForkEntries,
}

impl FileIndex<ProcessVfsFileRecord> {
    /// A record is added; its path names its fork.
    pub open spec fn pushed(self, record: ProcessVfsFileRecord) -> Self {
        FileIndex {
            records: self.records.push(record),
            forks: if record.path@.len() > 0 {
                crate::forks::fork_inserted(self.forks, record.path@, record.data.id())
            } else {
                self.forks
            },
        }
    }

    pub open spec fn pushed_all(self, records: Seq<ProcessVfsFileRecord>) -> Self
        decreases records.len(),
    {
        if records.len() == 0 {
            self
        } else {
            self.pushed_all(records.drop_last()).pushed(records.last())
        }
    }

    /// Records whose paths are new are added.
    pub open spec fn joined(self, records: Seq<ProcessVfsFileRecord>) -> Self
        decreases records.len(),
    {
        if records.len() == 0 {
            self
        } else {
            let joined = self.joined(records.drop_last());
            if record_index(joined.records, records.last().path@) >= 0 {
                joined
            } else {
                joined.pushed(records.last())
            }
        }
    }

    /// A record gets another path.
    pub open spec fn renamed(self, old_path: Seq<char>, new_path: String) -> Self {
        let index = record_index(self.records, old_path);
        if index < 0 {
            self
        } else {
            FileIndex {
                records: self.records.update(
                    index,
                    ProcessVfsFileRecord {
                        path: new_path,
                        dirty: true,
                        ..self.records[index]
                    },
                ),
                forks: crate::forks::fork_renamed(self.forks, old_path, new_path@),
            }
        }
    }
}

/// Native file records, backed by the process's data-fork index.
pub struct ProcessVfsFileRecords {
    pub records: Vec<ProcessVfsFileRecord>,
    pub data_forks: SharedProcessValue<ProcessForkMap>,
}

impl ProcessVfsFileRecords {
    /// The fork index exists, and no path occurs twice in it.
    pub open spec fn valid(&self, maps: &SharedCells<ProcessForkMap>) -> bool {
        &&& self.data_forks.valid(maps@)
        &&& crate::forks::one_fork_per_path(maps@[self.data_forks.id()]@)
    }

    /// What the index holds.
    pub open spec fn index(&self, maps: &SharedCells<ProcessForkMap>) -> FileIndex<
        ProcessVfsFileRecord,
    > {
        FileIndex { records: self.records@, forks: maps@[self.data_forks.id()]@ }
    }

    /// The index kept its fork map, and no other map changed.
    pub open spec fn step(
        &self,
        before: &SharedCells<ProcessForkMap>,
        after: &Self,
        maps: &SharedCells<ProcessForkMap>,
    ) -> bool {
        &&& after.data_forks.id() == self.data_forks.id()
        &&& after.valid(maps)
        &&& crate::cells::only_cell_changed(before@, maps@, self.data_forks.id())
    }

    /// An index without records.
    pub fn new(maps: &mut SharedCells<ProcessForkMap>) -> (files: Self)
        ensures
            files.valid(final(maps)),
            files.data_forks.id() == old(maps)@.len(),
            crate::cells::cells_extend(old(maps)@, final(maps)@),
            final(maps)@.len() == old(maps)@.len() + 1,
            files.records@.len() == 0,
            files.index(final(maps)).forks == Seq::<(Seq<char>, int)>::empty(),
    {
        ProcessVfsFileRecords {
            records: Vec::new(),
            data_forks: maps.allocate(ProcessForkMap::new()),
        }
    }

    /// Add a record; its path names its fork from now on.
    pub fn push(&mut self, maps: &mut SharedCells<ProcessForkMap>, record: ProcessVfsFileRecord)
        requires
            old(self).valid(old(maps)),
        ensures
            old(self).step(old(maps), final(self), final(maps)),
            final(self).index(final(maps)) == old(self).index(old(maps)).pushed(record),
    {
        if !record.path.as_str().is_empty() {
            maps.get_mut(&self.data_forks).insert_shared(record.path.clone(), &record.data);
        }
        self.records.push(record);
    }

    /// Keep the records that a predicate accepts, and the forks whose paths
    /// are still recorded.
    pub fn retain(
        &mut self,
        maps: &mut SharedCells<ProcessForkMap>,
        keep: impl Fn(&ProcessVfsFileRecord) -> bool,
    )
        requires
            old(self).valid(old(maps)),
            forall|record: &ProcessVfsFileRecord| call_requires(keep, (record,)),
        ensures
            old(self).step(old(maps), final(self), final(maps)),
            exists|marks: Seq<bool>| #![trigger crate::lists::selected(old(self).records@, marks)]
                marks.len() == old(self).records@.len() && (forall|i: int|
                    0 <= i < marks.len() ==> call_ensures(
                        keep,
                        (&old(self).records@[i],),
                        #[trigger] marks[i],
                    )) && final(self).records@ == crate::lists::selected(old(self).records@, marks),
            final(self).index(final(maps)).forks == recorded_forks(
                final(self).records@,
                old(self).index(old(maps)).forks,
            ),
    {
        retain_list(&mut self.records, keep);
        retain_recorded(maps.get_mut(&self.data_forks), &self.records);
    }

    /// Replace every record.
    pub fn replace(
        &mut self,
        maps: &mut SharedCells<ProcessForkMap>,
        records: Vec<ProcessVfsFileRecord>,
    )
        requires
            old(self).valid(old(maps)),
        ensures
            old(self).step(old(maps), final(self), final(maps)),
            final(self).index(final(maps)) == (FileIndex {
                records: Seq::<ProcessVfsFileRecord>::empty(),
                forks: Seq::<(Seq<char>, int)>::empty(),
            }).pushed_all(records@),
    {
        self.records.clear();
        maps.get_mut(&self.data_forks).clear();
        self.push_all(maps, records);
    }

    fn push_all(&mut self, maps: &mut SharedCells<ProcessForkMap>, records: Vec<ProcessVfsFileRecord>)
        requires
            old(self).valid(old(maps)),
        ensures
            old(self).step(old(maps), final(self), final(maps)),
            final(self).index(final(maps)) == old(self).index(old(maps)).pushed_all(records@),
    {
        let mut records = records;
        let ghost all = records@;
        let ghost start = self.index(maps);
        let count: usize = records.len();
        let mut i: usize = 0;
        assert(all.take(0) =~= Seq::empty());
        while i < count
            invariant
                i <= count,
                count == all.len(),
                records@ == all.skip(i as int),
                self.valid(maps),
                old(self).step(old(maps), self, maps),
                self.index(maps) == start.pushed_all(all.take(i as int)),
            decreases count - i,
        {
            let record = records.remove(0);
            proof {
                assert(all.skip(i as int).remove(0) =~= all.skip(i + 1));
                assert(all.take(i + 1).drop_last() =~= all.take(i as int));
                assert(all.take(i + 1).last() == record);
            }
            self.push(maps, record);
            i += 1;
        }
        assert(all.take(count as int) =~= all);
    }

    /// Give the record of a path another path; the result tells whether there
    /// was one.
    pub fn rename_path(
        &mut self,
        maps: &mut SharedCells<ProcessForkMap>,
        old_path: &str,
        new_path: &str,
    ) -> (renamed: bool)
        requires
            old(self).valid(old(maps)),
        ensures
            old(self).step(old(maps), final(self), final(maps)),
            renamed == (record_index(old(self).records@, old_path@) >= 0),
            exists|text: String|
                #![trigger old(self).index(old(maps)).renamed(old_path@, text)]
                text@ == new_path@ && final(self).index(final(maps)) == old(self).index(
                    old(maps),
                ).renamed(old_path@, text),
    {
        let text = new_path.to_owned();
        let index: usize = match find_record(&self.records, old_path) {
            Some(index) => index,
            None => {
                assert(self.index(maps) == old(self).index(old(maps)).renamed(old_path@, text));
                return false;
            },
        };
        maps.get_mut(&self.data_forks).rename(old_path, new_path);
        let path = text.clone();
        self.records[index].path = text;
        self.records[index].dirty = true;
        proof {
            assert(self.index(maps) =~= old(self).index(old(maps)).renamed(old_path@, path));
        }
        true
    }

    /// Take the records and forks of another index over whose paths are new.
    pub fn merge_from(&mut self, maps: &mut SharedCells<ProcessForkMap>, source: &mut Self)
        requires
            old(self).valid(old(maps)),
            old(source).valid(old(maps)),
        ensures
            final(self).data_forks.id() == old(self).data_forks.id(),
            final(source).data_forks.id() == old(source).data_forks.id(),
            final(self).valid(final(maps)),
            final(source).valid(final(maps)),
            final(maps)@.len() == old(maps)@.len(),
            forall|i: int|
                0 <= i < old(maps)@.len() && i != old(self).data_forks.id() && i != old(
                    source,
                ).data_forks.id() ==> #[trigger] final(maps)@[i] == old(maps)@[i],
            final(source).records@.len() == 0,
            ({
                let joined = old(self).index(old(maps)).joined(old(source).records@);
                let shared = old(self).data_forks.id() == old(source).data_forks.id();
                &&& final(self).records@ == joined.records
                &&& final(self).index(final(maps)).forks == if shared {
                    crate::forks::forks_merged(Seq::empty(), joined.forks)
                } else {
                    crate::forks::forks_merged(joined.forks, old(source).index(old(maps)).forks)
                }
                &&& !shared ==> final(source).index(final(maps)).forks == Seq::<
                    (Seq<char>, int),
                >::empty()
            }),
    {
        let mut records: Vec<ProcessVfsFileRecord> = Vec::new();
        core::mem::swap(&mut records, &mut source.records);
        let ghost all = records@;
        let ghost start = self.index(maps);
        let count: usize = records.len();
        let mut i: usize = 0;
        assert(all.take(0) =~= Seq::empty());
        while i < count
            invariant
                i <= count,
                count == all.len(),
                records@ == all.skip(i as int),
                self.valid(maps),
                old(self).step(old(maps), self, maps),
                self.index(maps) == start.joined(all.take(i as int)),
            decreases count - i,
        {
            let record = records.remove(0);
            proof {
                assert(all.skip(i as int).remove(0) =~= all.skip(i + 1));
                assert(all.take(i + 1).drop_last() =~= all.take(i as int));
                assert(all.take(i + 1).last() == record);
            }
            if find_record(&self.records, record.path.as_str()).is_none() {
                self.push(maps, record);
            }
            i += 1;
        }
        assert(all.take(count as int) =~= all);
        let forks = source.data_forks.take(maps);
        assert(maps@[source.data_forks.id()]@ =~= Seq::empty());
        maps.get_mut(&self.data_forks).merge_from(forks);
    }
}

} // verus!
