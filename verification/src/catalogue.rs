//! Volumes, directories and catalogue information of the file system.

use crate::assoc::AssocMap;
use crate::cells::{CellDefault, CellValue};
use crate::text::{equal_ignoring_case, parent_of};
use crate::vfs::{find_record, ProcessVfsDirectory, ProcessVfsMetadata, ProcessVfsVolumeRecord};
use vstd::prelude::*;

verus! {

impl CellDefault for ProcessVfsMetadata {
    open spec fn is_default(&self) -> bool {
        *self == (ProcessVfsMetadata {
            file_id: 0,
            parent_dir_id: 0,
            file_type: 0,
            creator: 0,
            finder_flags: 0,
            created_date: 0,
            modified_date: 0,
        })
    }

    fn default_value() -> (value: Self) {
        ProcessVfsMetadata {
            file_id: 0,
            parent_dir_id: 0,
            file_type: 0,
            creator: 0,
            finder_flags: 0,
            created_date: 0,
            modified_date: 0,
        }
    }
}

impl CellValue for ProcessVfsMetadata {
    open spec fn same(&self, other: &Self) -> bool {
        *self == *other
    }

    fn copy_value(&self) -> (copy: Self) {
        *self
    }
}

impl CellDefault for ProcessVfsDirectory {
    open spec fn is_default(&self) -> bool {
        &&& self.path@.len() == 0
        &&& *self == (ProcessVfsDirectory {
            dir_id: 0,
            parent_dir_id: 0,
            path: self.path,
            creator: 0,
            file_type: 0,
            finder_flags: 0,
            dirty: false,
        })
    }

    fn default_value() -> (value: Self) {
        ProcessVfsDirectory {
            dir_id: 0,
            parent_dir_id: 0,
            path: String::new(),
            creator: 0,
            file_type: 0,
            finder_flags: 0,
            dirty: false,
        }
    }
}

impl CellValue for ProcessVfsDirectory {
    open spec fn same(&self, other: &Self) -> bool {
        *self == *other
    }

    fn copy_value(&self) -> (copy: Self) {
        ProcessVfsDirectory { path: self.path.clone(), ..*self }
    }
}

impl CellDefault for ProcessVfsVolumeRecord {
    open spec fn is_default(&self) -> bool {
        &&& self.name@.len() == 0
        &&& *self == (ProcessVfsVolumeRecord {
            ref_num: 0,
            name: self.name,
            root_dir_id: 0,
            attributes: 0,
            file_count: 0,
            allocation_block_count: 0,
            allocation_block_size: 0,
            clump_size: 0,
            free_blocks: 0,
            bitmap_start: 0,
            allocation_pointer: 0,
            allocation_start: 0,
            next_catalog_id: 0,
            created_date: 0,
            modified_date: 0,
        })
    }

    fn default_value() -> (value: Self) {
        ProcessVfsVolumeRecord {
            ref_num: 0,
            name: String::new(),
            root_dir_id: 0,
            attributes: 0,
            file_count: 0,
            allocation_block_count: 0,
            allocation_block_size: 0,
            clump_size: 0,
            free_blocks: 0,
            bitmap_start: 0,
            allocation_pointer: 0,
            allocation_start: 0,
            next_catalog_id: 0,
            created_date: 0,
            modified_date: 0,
        }
    }
}

impl CellValue for ProcessVfsVolumeRecord {
    open spec fn same(&self, other: &Self) -> bool {
        *self == *other
    }

    fn copy_value(&self) -> (copy: Self) {
        ProcessVfsVolumeRecord { name: self.name.clone(), ..*self }
    }
}

/// A folder that a new system has: the root, the System Folder, or the
/// Preferences folder in it.
pub open spec fn initial_directory(directory: ProcessVfsDirectory) -> bool {
    &&& !directory.dirty
    &&& {
        ||| directory.path@ == ""@ && directory.dir_id == 2 && directory.parent_dir_id == 1
        ||| directory.path@ == "System Folder"@ && directory.dir_id == 16
            && directory.parent_dir_id == 2
        ||| directory.path@ == "System Folder/Preferences"@ && directory.dir_id == 17
            && directory.parent_dir_id == 16
    }
}

/// At most the three folders of a new system.
pub open spec fn directories_pristine(directories: Seq<ProcessVfsDirectory>) -> bool {
    &&& directories.len() <= 3
    &&& forall|i: int| 0 <= i < directories.len() ==> initial_directory(#[trigger] directories[i])
}

fn is_initial_directory(directory: &ProcessVfsDirectory) -> (initial: bool)
    ensures
        initial == initial_directory(*directory),
{
    let root = "".to_owned();
    let system = "System Folder".to_owned();
    let preferences = "System Folder/Preferences".to_owned();
    !directory.dirty && ((directory.path == root && directory.dir_id == 2
        && directory.parent_dir_id == 1) || (directory.path == system && directory.dir_id == 16
        && directory.parent_dir_id == 2) || (directory.path == preferences && directory.dir_id == 17
        && directory.parent_dir_id == 16))
}

/// Whether the directories are at most those of a new system.
pub fn process_vfs_directories_are_pristine(directories: &Vec<ProcessVfsDirectory>) -> (pristine:
    bool)
    ensures
        pristine == directories_pristine(directories@),
{
    if directories.len() > 3 {
        return false;
    }
    let mut i: usize = 0;
    while i < directories.len()
        invariant
            i <= directories@.len(),
            forall|j: int| 0 <= j < i ==> initial_directory(#[trigger] directories@[j]),
        decreases directories@.len() - i,
    {
        if !is_initial_directory(&directories[i]) {
            return false;
        }
        i += 1;
    }
    true
}

/// Whether there is no volume and no directory beyond those of a new system.
pub fn process_native_vfs_catalogue_is_pristine(
    volumes: &Vec<ProcessVfsVolumeRecord>,
    directories: &Vec<ProcessVfsDirectory>,
) -> (pristine: bool)
    ensures
        pristine == (volumes@.len() == 0 && directories_pristine(directories@)),
{
    volumes.len() == 0 && process_vfs_directories_are_pristine(directories)
}

/// A volume with the number or the name of another is there.
pub open spec fn volume_known(volumes: Seq<ProcessVfsVolumeRecord>, wanted: ProcessVfsVolumeRecord) -> bool {
    exists|i: int|
        0 <= i < volumes.len() && ((#[trigger] volumes[i]).ref_num == wanted.ref_num || crate::text::same_name(
            volumes[i].name@,
            wanted.name@,
        ))
}

/// The volumes after others joined; known ones stay as they are.
pub open spec fn volumes_joined(
    volumes: Seq<ProcessVfsVolumeRecord>,
    others: Seq<ProcessVfsVolumeRecord>,
) -> Seq<ProcessVfsVolumeRecord>
    decreases others.len(),
{
    if others.len() == 0 {
        volumes
    } else {
        let joined = volumes_joined(volumes, others.drop_last());
        if volume_known(joined, others.last()) {
            joined
        } else {
            joined.push(others.last())
        }
    }
}

/// A directory with the number or the path of another is there.
pub open spec fn directory_known(
    directories: Seq<ProcessVfsDirectory>,
    wanted: ProcessVfsDirectory,
) -> bool {
    exists|i: int|
        0 <= i < directories.len() && ((#[trigger] directories[i]).dir_id == wanted.dir_id
            || crate::text::same_name(directories[i].path@, wanted.path@))
}

/// The directories after others joined; known ones stay as they are.
pub open spec fn directories_joined(
    directories: Seq<ProcessVfsDirectory>,
    others: Seq<ProcessVfsDirectory>,
) -> Seq<ProcessVfsDirectory>
    decreases others.len(),
{
    if others.len() == 0 {
        directories
    } else {
        let joined = directories_joined(directories, others.drop_last());
        if directory_known(joined, others.last()) {
            joined
        } else {
            joined.push(others.last())
        }
    }
}

/// The names after others joined; a name that agrees with one but for case is
/// there already.
pub open spec fn names_joined(names: Seq<String>, others: Seq<String>) -> Seq<String>
    decreases others.len(),
{
    if others.len() == 0 {
        names
    } else {
        let joined = names_joined(names, others.drop_last());
        if crate::vfs::record_index(joined, others.last()@) >= 0 {
            joined
        } else {
            joined.push(others.last())
        }
    }
}

fn is_volume_known(volumes: &Vec<ProcessVfsVolumeRecord>, wanted: &ProcessVfsVolumeRecord) -> (known:
    bool)
    ensures
        known == volume_known(volumes@, *wanted),
{
    let mut i: usize = 0;
    while i < volumes.len()
        invariant
            i <= volumes@.len(),
            forall|j: int|
                0 <= j < i ==> (#[trigger] volumes@[j]).ref_num != wanted.ref_num && !crate::text::same_name(
                    volumes@[j].name@,
                    wanted.name@,
                ),
        decreases volumes@.len() - i,
    {
        if volumes[i].ref_num == wanted.ref_num || equal_ignoring_case(
            volumes[i].name.as_str(),
            wanted.name.as_str(),
        ) {
            return true;
        }
        i += 1;
    }
    false
}

fn is_directory_known(directories: &Vec<ProcessVfsDirectory>, wanted: &ProcessVfsDirectory) -> (known:
    bool)
    ensures
        known == directory_known(directories@, *wanted),
{
    let mut i: usize = 0;
    while i < directories.len()
        invariant
            i <= directories@.len(),
            forall|j: int|
                0 <= j < i ==> (#[trigger] directories@[j]).dir_id != wanted.dir_id && !crate::text::same_name(
                    directories@[j].path@,
                    wanted.path@,
                ),
        decreases directories@.len() - i,
    {
        if directories[i].dir_id == wanted.dir_id || equal_ignoring_case(
            directories[i].path.as_str(),
            wanted.path.as_str(),
        ) {
            return true;
        }
        i += 1;
    }
    false
}

pub(crate) fn join_volumes(
    volumes: &mut Vec<ProcessVfsVolumeRecord>,
    others: Vec<ProcessVfsVolumeRecord>,
)
    ensures
        final(volumes)@ == volumes_joined(old(volumes)@, others@),
{
    let mut others = others;
    let ghost all = others@;
    let count: usize = others.len();
    let mut i: usize = 0;
    assert(all.take(0) =~= Seq::empty());
    while i < count
        invariant
            i <= count,
            count == all.len(),
            others@ == all.skip(i as int),
            volumes@ == volumes_joined(old(volumes)@, all.take(i as int)),
        decreases count - i,
    {
        let volume = others.remove(0);
        proof {
            assert(all.skip(i as int).remove(0) =~= all.skip(i + 1));
            assert(all.take(i + 1).drop_last() =~= all.take(i as int));
            assert(all.take(i + 1).last() == volume);
        }
        if !is_volume_known(volumes, &volume) {
            volumes.push(volume);
        }
        i += 1;
    }
    assert(all.take(count as int) =~= all);
}

pub(crate) fn join_directories(
    directories: &mut Vec<ProcessVfsDirectory>,
    others: Vec<ProcessVfsDirectory>,
)
    ensures
        final(directories)@ == directories_joined(old(directories)@, others@),
{
    let mut others = others;
    let ghost all = others@;
    let count: usize = others.len();
    let mut i: usize = 0;
    assert(all.take(0) =~= Seq::empty());
    while i < count
        invariant
            i <= count,
            count == all.len(),
            others@ == all.skip(i as int),
            directories@ == directories_joined(old(directories)@, all.take(i as int)),
        decreases count - i,
    {
        let directory = others.remove(0);
        proof {
            assert(all.skip(i as int).remove(0) =~= all.skip(i + 1));
            assert(all.take(i + 1).drop_last() =~= all.take(i as int));
            assert(all.take(i + 1).last() == directory);
        }
        if !is_directory_known(directories, &directory) {
            directories.push(directory);
        }
        i += 1;
    }
    assert(all.take(count as int) =~= all);
}

pub(crate) fn join_names(names: &mut Vec<String>, others: &mut Vec<String>)
    ensures
        final(names)@ == names_joined(old(names)@, old(others)@),
        final(others)@.len() == 0,
{
    let ghost all = others@;
    let count: usize = others.len();
    let mut i: usize = 0;
    assert(all.take(0) =~= Seq::empty());
    while i < count
        invariant
            i <= count,
            count == all.len(),
            others@ == all.skip(i as int),
            names@ == names_joined(old(names)@, all.take(i as int)),
        decreases count - i,
    {
        let name = others.remove(0);
        proof {
            assert(all.skip(i as int).remove(0) =~= all.skip(i + 1));
            assert(all.take(i + 1).drop_last() =~= all.take(i as int));
            assert(all.take(i + 1).last() == name);
        }
        if find_record(names, name.as_str()).is_none() {
            names.push(name);
        }
        i += 1;
    }
    assert(all.take(count as int) =~= all);
}

/// The number of the folder that a path lies in; the root where the folder is
/// not recorded.
pub open spec fn parent_dir(directories: Seq<ProcessVfsDirectory>, path: Seq<char>) -> u32 {
    let index = crate::vfs::record_index(directories, crate::text::parent_path(path));
    if index >= 0 {
        directories[index].dir_id
    } else {
        2
    }
}

pub fn process_vfs_parent_dir_id(directories: &Vec<ProcessVfsDirectory>, path: &str) -> (dir_id: u32)
    ensures
        dir_id == parent_dir(directories@, path@),
{
    let parent = parent_of(path);
    match find_record(directories, parent.as_str()) {
        Some(index) => directories[index].dir_id,
        None => 2,
    }
}

/// Classic catalogue information and the counters that new entries draw from.
#[verifier::ext_equal]
pub struct CatalogueModel {
    pub metadata: Map<Seq<char>, ProcessVfsMetadata>,
    pub next_file_id: u32,
    pub next_timestamp: u32,
}

/// What the catalogue takes over from a native record.
pub struct PublishedRecord {
    pub path: String,
    pub file_type: u32,
    pub creator: u32,
    pub finder_flags: u16,
    pub dirty: bool,
}

pub open spec fn counted(counter: u32) -> u32 {
    if counter == u32::MAX {
        counter
    } else {
        (counter + 1) as u32
    }
}

impl CatalogueModel {
    /// A native record is published. A new path draws a file number and a
    /// date; a changed file gets a new modification date.
    pub open spec fn published(self, record: PublishedRecord, parent_dir_id: u32) -> Self {
        let path = record.path@;
        let known = self.metadata.dom().contains(path);
        let entry = if known {
            self.metadata[path]
        } else {
            ProcessVfsMetadata {
                file_id: self.next_file_id,
                parent_dir_id,
                file_type: record.file_type,
                creator: record.creator,
                finder_flags: record.finder_flags,
                created_date: self.next_timestamp,
                modified_date: self.next_timestamp,
            }
        };
        let drawn = if known {
            self.next_timestamp
        } else {
            counted(self.next_timestamp)
        };
        CatalogueModel {
            metadata: self.metadata.insert(
                path,
                ProcessVfsMetadata {
                    parent_dir_id,
                    file_type: record.file_type,
                    creator: record.creator,
                    finder_flags: record.finder_flags,
                    modified_date: if record.dirty {
                        drawn
                    } else {
                        entry.modified_date
                    },
                    ..entry
                },
            ),
            next_file_id: if known {
                self.next_file_id
            } else {
                counted(self.next_file_id)
            },
            next_timestamp: if record.dirty {
                counted(drawn)
            } else {
                drawn
            },
        }
    }

    /// Records are published in order; one without a path is passed over.
    pub open spec fn published_all(
        self,
        records: Seq<PublishedRecord>,
        directories: Seq<ProcessVfsDirectory>,
    ) -> Self
        decreases records.len(),
    {
        if records.len() == 0 {
            self
        } else {
            let before = self.published_all(records.drop_last(), directories);
            let record = records.last();
            if record.path@.len() == 0 {
                before
            } else {
                before.published(record, parent_dir(directories, record.path@))
            }
        }
    }
}

/// Publish a native record in the classic catalogue.
pub fn publish_native_vfs_metadata(
    metadata: &mut AssocMap<String, ProcessVfsMetadata>,
    next_file_id: &mut u32,
    next_timestamp: &mut u32,
    record: &PublishedRecord,
    parent_dir_id: u32,
)
    ensures
        (CatalogueModel {
            metadata: final(metadata)@,
            next_file_id: *final(next_file_id),
            next_timestamp: *final(next_timestamp),
        }) == (CatalogueModel {
            metadata: old(metadata)@,
            next_file_id: *old(next_file_id),
            next_timestamp: *old(next_timestamp),
        }).published(*record, parent_dir_id),
{
    let mut entry = match metadata.get(&record.path) {
        Some(entry) => *entry,
        None => {
            let created = ProcessVfsMetadata {
                file_id: *next_file_id,
                parent_dir_id,
                file_type: record.file_type,
                creator: record.creator,
                finder_flags: record.finder_flags,
                created_date: *next_timestamp,
                modified_date: *next_timestamp,
            };
            *next_file_id = next_file_id.saturating_add(1);
            *next_timestamp = next_timestamp.saturating_add(1);
            created
        },
    };
    entry.parent_dir_id = parent_dir_id;
    entry.file_type = record.file_type;
    entry.creator = record.creator;
    entry.finder_flags = record.finder_flags;
    if record.dirty {
        entry.modified_date = *next_timestamp;
        *next_timestamp = next_timestamp.saturating_add(1);
    }
    metadata.insert(record.path.clone(), entry);
}

/// Publishing never takes a catalogue entry away, and file numbers and dates
/// never go back.
pub proof fn publishing_only_adds(catalogue: CatalogueModel, record: PublishedRecord, parent: u32)
    ensures
        ({
            let after = catalogue.published(record, parent);
            &&& after.metadata.dom() == catalogue.metadata.dom().insert(record.path@)
            &&& after.next_file_id >= catalogue.next_file_id
            &&& after.next_timestamp >= catalogue.next_timestamp
            &&& catalogue.metadata.dom().contains(record.path@) ==> {
                &&& after.metadata[record.path@].file_id == catalogue.metadata[record.path@].file_id
                &&& after.metadata[record.path@].created_date
                    == catalogue.metadata[record.path@].created_date
            }
            &&& forall|other: Seq<char>| #[trigger]
                catalogue.metadata.dom().contains(other) && other != record.path@
                    ==> after.metadata[other] == catalogue.metadata[other]
        }),
{
    assert(catalogue.published(record, parent).metadata.dom() =~= catalogue.metadata.dom().insert(
        record.path@,
    ));
}

/// A catalogue that was changed, that has a fourth folder, or that has a
/// folder of another number than those of a new system, is not that of a new
/// one; an empty one is.
pub proof fn changed_catalogue_is_not_new(directories: Seq<ProcessVfsDirectory>, i: int)
    requires
        0 <= i < directories.len(),
    ensures
        directories[i].dirty ==> !directories_pristine(directories),
        directories.len() > 3 ==> !directories_pristine(directories),
        directories[i].dir_id != 2 && directories[i].dir_id != 16 && directories[i].dir_id != 17
            ==> !directories_pristine(directories),
        directories[i].dir_id == 16 && directories[i].parent_dir_id != 2 ==> !directories_pristine(
            directories,
        ),
        directories[i].dir_id == 17 && directories[i].parent_dir_id != 16
            ==> !directories_pristine(directories),
        directories[i].dir_id == 2 && directories[i].path@.len() > 0 ==> !directories_pristine(
            directories,
        ),
        directories_pristine(Seq::empty()),
{
    reveal_strlit("");
    if directories_pristine(directories) {
        assert(initial_directory(directories[i]));
    }
}

} // verus!
