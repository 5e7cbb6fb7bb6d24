//! The native records and the classic catalogue of a file system, kept in
//! step with each other.

use crate::catalogue::{
    process_vfs_parent_dir_id, publish_native_vfs_metadata, CatalogueModel, PublishedRecord,
};
use crate::file_system::{FileCells, ProcessFileSystemState};
use crate::forks::{ForkEntries, ProcessForkBytes};
use crate::lists::retain_list;
use crate::resource_manager::{ProcessResourceManagerState, ResourceCells};
use crate::text::{equal_ignoring_case, is_within};
use crate::vfs::{
    find_record, ProcessVfsDirectory, ProcessVfsFileRecord, ProcessVfsResourceFileRecord, VfsEntry,
};
use vstd::prelude::*;

verus! {

/// What a file system holds about files: the native records with their fork
/// indexes, and the classic catalogue.
#[verifier::ext_equal]
pub struct FilesModel {
    pub files: Seq<ProcessVfsFileRecord>,
    pub data_forks: ForkEntries,
    pub resource_files: Seq<ProcessVfsResourceFileRecord>,
    pub resource_forks: ForkEntries,
    pub catalogue: CatalogueModel,
    pub locked: Set<Seq<char>>,
}

/// What the catalogue takes over from the native records, files before
/// resource files.
pub open spec fn published_records(
    files: Seq<ProcessVfsFileRecord>,
    resource_files: Seq<ProcessVfsResourceFileRecord>,
) -> Seq<PublishedRecord> {
    Seq::new(
        files.len(),
        |i: int|
            PublishedRecord {
                path: files[i].path,
                file_type: files[i].file_type,
                creator: files[i].creator,
                finder_flags: files[i].finder_flags,
                dirty: files[i].dirty,
            },
    ) + Seq::new(
        resource_files.len(),
        |i: int|
            PublishedRecord {
                path: resource_files[i].path,
                file_type: resource_files[i].file_type,
                creator: resource_files[i].creator,
                finder_flags: resource_files[i].finder_flags,
                dirty: resource_files[i].dirty,
            },
    )
}

/// A changed file has the path, but for case.
pub open spec fn changed_file(files: Seq<ProcessVfsFileRecord>, path: Seq<char>) -> bool {
    exists|i: int| 0 <= i < files.len() && (#[trigger] files[i]).dirty && crate::text::same_name(files[i].path@, path)
}

pub open spec fn changed_resource_file(files: Seq<ProcessVfsResourceFileRecord>, path: Seq<char>) -> bool {
    exists|i: int| 0 <= i < files.len() && (#[trigger] files[i]).dirty && crate::text::same_name(files[i].path@, path)
}

/// The records whose names do not agree with `path`.
pub open spec fn others<R: VfsEntry>(records: Seq<R>, path: Seq<char>) -> Seq<R> {
    records.filter(|record: R| !crate::text::same_name(record.name(), path))
}

/// The records outside a folder.
pub open spec fn outside<R: VfsEntry>(records: Seq<R>, folder: Seq<char>) -> Seq<R> {
    records.filter(|record: R| !crate::text::within(record.name(), folder))
}

impl FilesModel {
    /// A deletion reaches the records, unless a changed file took the path.
    pub open spec fn deleted(self, path: Seq<char>) -> Self {
        if changed_file(self.files, path) || changed_resource_file(self.resource_files, path) {
            self
        } else {
            FilesModel {
                files: others(self.files, path),
                data_forks: crate::forks::fork_removed(self.data_forks, path),
                resource_files: others(self.resource_files, path),
                resource_forks: crate::forks::fork_removed(self.resource_forks, path),
                catalogue: CatalogueModel {
                    metadata: self.catalogue.metadata.remove(path),
                    ..self.catalogue
                },
                locked: self.locked.remove(path),
            }
        }
    }

    pub open spec fn deleted_all(self, paths: Seq<String>) -> Self
        decreases paths.len(),
    {
        if paths.len() == 0 {
            self
        } else {
            self.deleted_all(paths.drop_last()).deleted(paths.last()@)
        }
    }

    /// The native records are published, then the deletions.
    pub open spec fn published(
        self,
        directories: Seq<ProcessVfsDirectory>,
        deleted_paths: Seq<String>,
    ) -> Self {
        FilesModel {
            catalogue: self.catalogue.published_all(
                published_records(self.files, self.resource_files),
                directories,
            ),
            ..self
        }.deleted_all(deleted_paths)
    }

    /// Classic catalogue information reaches the native records of a path:
    /// each fork that the path names has a record with it.
    pub open spec fn classic_published(
        self,
        path: String,
        directories: Seq<ProcessVfsDirectory>,
        forks: Seq<Vec<u8>>,
    ) -> Self {
        if !self.catalogue.metadata.dom().contains(path@) || crate::vfs::record_index(directories, path@) >= 0 {
            self
        } else {
            let metadata = self.catalogue.metadata[path@];
            let file = crate::vfs::record_index(self.files, path@);
            let resource_file = crate::vfs::record_index(self.resource_files, path@);
            let data = crate::forks::entry_index(self.data_forks, path@);
            let resource = crate::forks::entry_index(self.resource_forks, path@);
            FilesModel {
                files: if data < 0 {
                    self.files
                } else if file >= 0 {
                    self.files.update(
                        file,
                        ProcessVfsFileRecord {
                            creator: metadata.creator,
                            file_type: metadata.file_type,
                            finder_flags: metadata.finder_flags,
                            ..self.files[file]
                        },
                    )
                } else {
                    self.files.push(
                        ProcessVfsFileRecord {
                            path,
                            data: fork_handle(self.data_forks[data].1),
                            creator: metadata.creator,
                            file_type: metadata.file_type,
                            finder_flags: metadata.finder_flags,
                            dirty: false,
                        },
                    )
                },
                resource_files: if resource < 0 {
                    self.resource_files
                } else if resource_file >= 0 {
                    self.resource_files.update(
                        resource_file,
                        ProcessVfsResourceFileRecord {
                            creator: metadata.creator,
                            file_type: metadata.file_type,
                            finder_flags: metadata.finder_flags,
                            ..self.resource_files[resource_file]
                        },
                    )
                } else {
                    self.resource_files.push(
                        ProcessVfsResourceFileRecord {
                            path,
                            creator: metadata.creator,
                            file_type: metadata.file_type,
                            finder_flags: metadata.finder_flags,
                            resource_len: forks[self.resource_forks[resource].1]@.len() as u32,
                            raw_data: Some(fork_handle(self.resource_forks[resource].1)),
                            map_attrs: 0,
                            dirty: false,
                        },
                    )
                },
                ..self
            }
        }
    }
}

/// The handle of a fork.
pub open spec fn fork_handle(id: int) -> ProcessForkBytes {
    ProcessForkBytes { cell: crate::cells::handle_of(id) }
}

impl ProcessFileSystemState {
    /// The Resource Manager's bookkeeping.
    pub open spec fn manager(&self, cells: &FileCells) -> ProcessResourceManagerState {
        self.resource_manager.state(&cells.managers)
    }

    /// What the file system holds about files.
    pub open spec fn files_model(&self, cells: &FileCells) -> FilesModel {
        FilesModel {
            files: self.vfs_files.records@,
            data_forks: cells.data_maps@[self.vfs_files.data_forks.id()]@,
            resource_files: self.manager(cells).vfs_resource_files.records@,
            resource_forks: cells.resources.maps@[self.manager(
                cells,
            ).vfs_resource_files.resource_forks.id()]@,
            catalogue: CatalogueModel {
                metadata: cells.metadata@[self.classic_vfs_metadata.id()]@,
                next_file_id: cells.next_file_ids@[self.classic_next_vfs_file_id.id()],
                next_timestamp: cells.next_timestamps@[self.classic_next_vfs_timestamp.id()],
            },
            locked: cells.locked@[self.classic_locked_files.id()]@,
        }
    }

    /// Only what `files_model` tells of changed, in the file system's own
    /// cells.
    pub open spec fn files_step(&self, before: &FileCells, after: &Self, cells: &FileCells) -> bool {
        let own = self.manager(before);
        let now = after.manager(cells);
        &&& after.valid(cells)
        &&& *after == (ProcessFileSystemState { vfs_files: after.vfs_files, ..*self })
        &&& after.vfs_files.data_forks.id() == self.vfs_files.data_forks.id()
        &&& crate::cells::only_cell_changed(before.data_maps@, cells.data_maps@, self.vfs_files.data_forks.id())
        &&& crate::cells::only_cell_changed(before.metadata@, cells.metadata@, self.classic_vfs_metadata.id())
        &&& crate::cells::only_cell_changed(before.locked@, cells.locked@, self.classic_locked_files.id())
        &&& crate::cells::only_cell_changed(
            before.next_file_ids@,
            cells.next_file_ids@,
            self.classic_next_vfs_file_id.id(),
        )
        &&& crate::cells::only_cell_changed(
            before.next_timestamps@,
            cells.next_timestamps@,
            self.classic_next_vfs_timestamp.id(),
        )
        &&& crate::cells::only_cell_changed(before.managers@, cells.managers@, self.resource_manager.id())
        &&& now == (ProcessResourceManagerState {
            vfs_resource_files: now.vfs_resource_files,
            ..own
        })
        &&& now.vfs_resource_files.resource_forks.id() == own.vfs_resource_files.resource_forks.id()
        &&& crate::cells::only_cell_changed(
            before.resources.maps@,
            cells.resources.maps@,
            own.vfs_resource_files.resource_forks.id(),
        )
        &&& cells.resources.forks@ == before.resources.forks@
        &&& *cells == (FileCells {
            data_maps: cells.data_maps,
            metadata: cells.metadata,
            locked: cells.locked,
            next_file_ids: cells.next_file_ids,
            next_timestamps: cells.next_timestamps,
            managers: cells.managers,
            resources: ResourceCells {
                maps: cells.resources.maps,
                forks: cells.resources.forks,
                ..before.resources
            },
            ..*before
        })
    }

    fn collect_published(&self, cells: &FileCells) -> (records: Vec<PublishedRecord>)
        requires
            self.valid(cells),
        ensures
            records@ == published_records(
                self.vfs_files.records@,
                self.manager(cells).vfs_resource_files.records@,
            ),
    {
        let mut records: Vec<PublishedRecord> = Vec::new();
        let files = &self.vfs_files.records;
        let resource_files = &cells.managers.get(
            &self.resource_manager.cell,
        ).vfs_resource_files.records;
        let ghost wanted = published_records(files@, resource_files@);
        let mut i: usize = 0;
        while i < files.len()
            invariant
                i <= files@.len(),
                wanted == published_records(files@, resource_files@),
                records@ == wanted.take(i as int),
            decreases files@.len() - i,
        {
            let file = &files[i];
            records.push(
                PublishedRecord {
                    path: file.path.clone(),
                    file_type: file.file_type,
                    creator: file.creator,
                    finder_flags: file.finder_flags,
                    dirty: file.dirty,
                },
            );
            assert(records@ =~= wanted.take(i + 1));
            i += 1;
        }
        let mut k: usize = 0;
        while k < resource_files.len()
            invariant
                k <= resource_files@.len(),
                wanted == published_records(files@, resource_files@),
                records@ == wanted.take(files@.len() + k),
            decreases resource_files@.len() - k,
        {
            let file = &resource_files[k];
            records.push(
                PublishedRecord {
                    path: file.path.clone(),
                    file_type: file.file_type,
                    creator: file.creator,
                    finder_flags: file.finder_flags,
                    dirty: file.dirty,
                },
            );
            assert(records@ =~= wanted.take(files@.len() + k + 1));
            k += 1;
        }
        assert(wanted.take(wanted.len() as int) =~= wanted);
        records
    }

    fn publish_records(&self, cells: &mut FileCells, records: &Vec<PublishedRecord>)
        requires
            self.valid(old(cells)),
        ensures
            self.files_step(old(cells), self, final(cells)),
            self.files_model(final(cells)) == (FilesModel {
                catalogue: self.files_model(old(cells)).catalogue.published_all(
                    records@,
                    old(cells).directories@[self.vfs_directories.id()]@,
                ),
                ..self.files_model(old(cells))
            }),
    {
        let ghost start = self.files_model(cells);
        let ghost directories = cells.directories@[self.vfs_directories.id()]@;
        let mut i: usize = 0;
        assert(records@.take(0) =~= Seq::empty());
        while i < records.len()
            invariant
                i <= records@.len(),
                self.valid(cells),
                self.files_step(old(cells), self, cells),
                directories == cells.directories@[self.vfs_directories.id()]@,
                self.files_model(cells) == (FilesModel {
                    catalogue: start.catalogue.published_all(records@.take(i as int), directories),
                    ..start
                }),
            decreases records@.len() - i,
        {
            let record = &records[i];
            proof {
                assert(records@.take(i + 1).drop_last() =~= records@.take(i as int));
                assert(records@.take(i + 1).last() == *record);
            }
            if !record.path.as_str().is_empty() {
                let parent: u32 = process_vfs_parent_dir_id(
                    cells.directories.get(&self.vfs_directories),
                    record.path.as_str(),
                );
                publish_native_vfs_metadata(
                    cells.metadata.get_mut(&self.classic_vfs_metadata),
                    cells.next_file_ids.get_mut(&self.classic_next_vfs_file_id),
                    cells.next_timestamps.get_mut(&self.classic_next_vfs_timestamp),
                    record,
                    parent,
                );
            }
            i += 1;
        }
        assert(records@.take(records@.len() as int) =~= records@);
    }

    fn delete_published(&mut self, cells: &mut FileCells, path: &String)
        requires
            old(self).valid(old(cells)),
        ensures
            old(self).files_step(old(cells), final(self), final(cells)),
            final(self).files_model(final(cells)) == old(self).files_model(old(cells)).deleted(
                path@,
            ),
    {
        let manager = cells.managers.get_mut(&self.resource_manager.cell);
        if is_changed_file(&self.vfs_files.records, path) || is_changed_resource_file(
            &manager.vfs_resource_files.records,
            path,
        ) {
            return;
        }
        cells.data_maps.get_mut(&self.vfs_files.data_forks).remove(path.as_str());
        retain_others(&mut self.vfs_files.records, path);
        cells.resources.maps.get_mut(&manager.vfs_resource_files.resource_forks).remove(
            path.as_str(),
        );
        retain_others(&mut manager.vfs_resource_files.records, path);
        cells.metadata.get_mut(&self.classic_vfs_metadata).remove(path);
        cells.locked.get_mut(&self.classic_locked_files).remove(path);
    }

    /// Bring the classic catalogue up to date with the native records and
    /// carry queued deletions out.
    pub fn publish_native_vfs_catalogue(&mut self, cells: &mut FileCells)
        requires
            old(self).valid(old(cells)),
        ensures
            old(self).files_step(old(cells), final(self), final(cells)),
            final(self).files_model(final(cells)) == old(self).files_model(old(cells)).published(
                old(cells).directories@[old(self).vfs_directories.id()]@,
                old(self).deleted_vfs_file_paths@,
            ),
            forall|k: int|
                0 <= k < old(self).deleted_vfs_file_paths@.len() && !changed_file(
                    old(self).vfs_files.records@,
                    (#[trigger] old(self).deleted_vfs_file_paths@[k])@,
                ) && !changed_resource_file(
                    old(self).manager(old(cells)).vfs_resource_files.records@,
                    old(self).deleted_vfs_file_paths@[k]@,
                ) ==> path_gone(
                    final(self).files_model(final(cells)),
                    old(self).deleted_vfs_file_paths@[k]@,
                ),
    {
        let ghost model = self.files_model(cells);
        let ghost directories = cells.directories@[self.vfs_directories.id()]@;
        let records = self.collect_published(cells);
        self.publish_records(cells, &records);
        let ghost start = self.files_model(cells);
        let ghost paths = self.deleted_vfs_file_paths@;
        let count: usize = self.deleted_vfs_file_paths.len();
        let mut i: usize = 0;
        assert(paths.take(0) =~= Seq::empty());
        while i < count
            invariant
                i <= count,
                count == paths.len(),
                paths == self.deleted_vfs_file_paths@,
                self.valid(cells),
                old(self).files_step(old(cells), self, cells),
                self.files_model(cells) == start.deleted_all(paths.take(i as int)),
            decreases count - i,
        {
            let path = self.deleted_vfs_file_paths[i].clone();
            proof {
                assert(paths.take(i + 1).drop_last() =~= paths.take(i as int));
                assert(paths.take(i + 1).last() == path);
            }
            self.delete_published(cells, &path);
            i += 1;
        }
        assert(paths.take(count as int) =~= paths);
        proof {
            assert forall|k: int|
                0 <= k < paths.len() && !changed_file(model.files, (#[trigger] paths[k])@)
                    && !changed_resource_file(model.resource_files, paths[k]@) implies path_gone(
                self.files_model(cells),
                paths[k]@,
            ) by {
                queued_deletion_is_carried_out(model, directories, paths, k);
            }
        }
    }

    /// Bring the native records of a path up to date with its classic
    /// catalogue entry.
    pub fn publish_classic_vfs_metadata(&mut self, cells: &mut FileCells, path: &str)
        requires
            old(self).valid(old(cells)),
            old(cells).resources.maps@[old(self).manager(
                old(cells),
            ).vfs_resource_files.resource_forks.id()].valid(&old(cells).resources.forks),
        ensures
            old(self).files_step(old(cells), final(self), final(cells)),
            exists|text: String|
                #![trigger old(self).files_model(old(cells)).classic_published(text, old(cells).directories@[old(self).vfs_directories.id()]@, old(cells).resources.forks@)]
                text@ == path@ && final(self).files_model(final(cells)) == old(self).files_model(
                    old(cells),
                ).classic_published(
                    text,
                    old(cells).directories@[old(self).vfs_directories.id()]@,
                    old(cells).resources.forks@,
                ),
    {
        let text = path.to_owned();
        let ghost before = self.files_model(cells);
        let ghost directories = cells.directories@[self.vfs_directories.id()]@;
        let ghost forks = cells.resources.forks@;
        let ghost wanted = before.classic_published(text, directories, forks);
        let metadata = match cells.metadata.get(&self.classic_vfs_metadata).get(&text) {
            Some(metadata) => *metadata,
            None => {
                return;
            },
        };
        if find_record(cells.directories.get(&self.vfs_directories), path).is_some() {
            return;
        }
        let data = cells.data_maps.get(&self.vfs_files.data_forks).get_shared(path);
        if let Some(data) = data {
            let data = data.shared_handle();
            proof {
                crate::cells::lemma_handle_of(data.cell);
            }
            match find_record(&self.vfs_files.records, path) {
                Some(index) => {
                    self.vfs_files.records[index].creator = metadata.creator;
                    self.vfs_files.records[index].file_type = metadata.file_type;
                    self.vfs_files.records[index].finder_flags = metadata.finder_flags;
                },
                None => {
                    let ghost entries = before.data_forks;
                    self.vfs_files.push(
                        &mut cells.data_maps,
                        ProcessVfsFileRecord {
                            path: text.clone(),
                            data,
                            creator: metadata.creator,
                            file_type: metadata.file_type,
                            finder_flags: metadata.finder_flags,
                            dirty: false,
                        },
                    );
                    proof {
                        lemma_reinserted(entries, path@);
                    }
                },
            }
        }
        let manager = cells.managers.get_mut(&self.resource_manager.cell);
        let resource = cells.resources.maps.get(
            &manager.vfs_resource_files.resource_forks,
        ).get_shared(path);
        if let Some(resource) = resource {
            let raw_data = resource.shared_handle();
            proof {
                crate::cells::lemma_handle_of(raw_data.cell);
            }
            let resource_len: u32 = raw_data.as_bytes(&cells.resources.forks).len() as u32;
            match find_record(&manager.vfs_resource_files.records, path) {
                Some(index) => {
                    manager.vfs_resource_files.records[index].creator = metadata.creator;
                    manager.vfs_resource_files.records[index].file_type = metadata.file_type;
                    manager.vfs_resource_files.records[index].finder_flags = metadata.finder_flags;
                },
                None => {
                    let ghost entries = before.resource_forks;
                    manager.vfs_resource_files.push(
                        &mut cells.resources.maps,
                        &mut cells.resources.forks,
                        ProcessVfsResourceFileRecord {
                            path: text.clone(),
                            creator: metadata.creator,
                            file_type: metadata.file_type,
                            finder_flags: metadata.finder_flags,
                            resource_len,
                            raw_data: Some(raw_data),
                            map_attrs: 0,
                            dirty: false,
                        },
                    );
                    proof {
                        lemma_reinserted(entries, path@);
                    }
                },
            }
        }
        assert(cells.resources.forks@ =~= forks);
        assert(self.files_model(cells) =~= wanted);
    }
}

/// An entry that is inserted again with its own fork changes nothing.
proof fn lemma_reinserted(entries: ForkEntries, path: Seq<char>)
    requires
        crate::forks::entry_index(entries, path) >= 0,
    ensures
        crate::forks::fork_inserted(entries, path, entries[crate::forks::entry_index(entries, path)].1) == entries,
{
    crate::forks::lemma_entry_index(entries, path);
    assert(crate::forks::fork_inserted(entries, path, entries[crate::forks::entry_index(entries, path)].1) =~= entries);
}

fn is_changed_file(files: &Vec<ProcessVfsFileRecord>, path: &String) -> (changed: bool)
    ensures
        changed == changed_file(files@, path@),
{
    let mut i: usize = 0;
    while i < files.len()
        invariant
            i <= files@.len(),
            forall|j: int|
                0 <= j < i ==> !((#[trigger] files@[j]).dirty && crate::text::same_name(files@[j].path@, path@)),
        decreases files@.len() - i,
    {
        if files[i].dirty && equal_ignoring_case(files[i].path.as_str(), path.as_str()) {
            return true;
        }
        i += 1;
    }
    false
}

fn is_changed_resource_file(files: &Vec<ProcessVfsResourceFileRecord>, path: &String) -> (changed:
    bool)
    ensures
        changed == changed_resource_file(files@, path@),
{
    let mut i: usize = 0;
    while i < files.len()
        invariant
            i <= files@.len(),
            forall|j: int|
                0 <= j < i ==> !((#[trigger] files@[j]).dirty && crate::text::same_name(files@[j].path@, path@)),
        decreases files@.len() - i,
    {
        if files[i].dirty && equal_ignoring_case(files[i].path.as_str(), path.as_str()) {
            return true;
        }
        i += 1;
    }
    false
}

fn retain_others<R: VfsEntry>(records: &mut Vec<R>, path: &String)
    ensures
        final(records)@ == others(old(records)@, path@),
{
    let ghost before = records@;
    let ghost accept = |record: R| !crate::text::same_name(record.name(), path@);
    let keep = |record: &R| -> (kept: bool)
        ensures
            kept == !crate::text::same_name(record.name(), path@),
        { !equal_ignoring_case(record.path_text(), path.as_str()) };
    retain_list(records, keep);
    proof {
        lemma_kept(before, records@, accept);
    }
}

fn retain_outside<R: VfsEntry>(records: &mut Vec<R>, folder: &str)
    ensures
        final(records)@ == outside(old(records)@, folder@),
{
    let ghost before = records@;
    let ghost accept = |record: R| !crate::text::within(record.name(), folder@);
    let keep = |record: &R| -> (kept: bool)
        ensures
            kept == !crate::text::within(record.name(), folder@),
        { !is_within(record.path_text(), folder) };
    retain_list(records, keep);
    proof {
        lemma_kept(before, records@, accept);
    }
}

/// Marks that a predicate sets select what the predicate accepts.
proof fn lemma_kept<R>(before: Seq<R>, after: Seq<R>, accept: spec_fn(R) -> bool)
    requires
        exists|marks: Seq<bool>| #![trigger crate::lists::selected(before, marks)]
            marks.len() == before.len() && (forall|i: int|
                0 <= i < marks.len() ==> #[trigger] marks[i] == accept(before[i])) && after
                == crate::lists::selected(before, marks),
    ensures
        after == before.filter(accept),
{
    let marks = choose|marks: Seq<bool>| #![trigger crate::lists::selected(before, marks)]
        marks.len() == before.len() && (forall|i: int|
            0 <= i < marks.len() ==> #[trigger] marks[i] == accept(before[i])) && after == crate::lists::selected(
            before,
            marks,
        );
    assert(marks =~= crate::lists::marks_of(before, accept));
    crate::lists::lemma_selected(before, accept);
}

impl ProcessFileSystemState {
    /// Forget a path and everything below it.
    pub fn remove_classic_vfs_path(&mut self, cells: &mut FileCells, path: &str)
        requires
            old(self).valid(old(cells)),
        ensures
            final(self).valid(final(cells)),
            *final(self) == (ProcessFileSystemState {
                vfs_files: final(self).vfs_files,
                ..*old(self)
            }),
            ({
                let before = old(self).files_model(old(cells));
                let files = outside(before.files, path@);
                let resource_files = outside(before.resource_files, path@);
                &&& final(self).files_model(final(cells)) == (FilesModel {
                    files,
                    data_forks: crate::vfs::recorded_forks(files, before.data_forks),
                    resource_files,
                    resource_forks: crate::vfs::recorded_forks(resource_files, before.resource_forks),
                    ..before
                })
                &&& final(cells).directories@[final(self).vfs_directories.id()]@ == outside(
                    old(cells).directories@[old(self).vfs_directories.id()]@,
                    path@,
                )
            }),
            crate::cells::only_cell_changed(
                old(cells).directories@,
                final(cells).directories@,
                old(self).vfs_directories.id(),
            ),
            crate::cells::only_cell_changed(
                old(cells).data_maps@,
                final(cells).data_maps@,
                old(self).vfs_files.data_forks.id(),
            ),
            crate::cells::only_cell_changed(
                old(cells).managers@,
                final(cells).managers@,
                old(self).resource_manager.id(),
            ),
            *final(cells) == (FileCells {
                directories: final(cells).directories,
                data_maps: final(cells).data_maps,
                managers: final(cells).managers,
                resources: ResourceCells {
                    maps: final(cells).resources.maps,
                    ..old(cells).resources
                },
                ..*old(cells)
            }),
    {
        let ghost before = self.files_model(cells);
        let keep_file = |file: &ProcessVfsFileRecord| -> (kept: bool)
            ensures
                kept == !crate::text::within(file.name(), path@),
            { !is_within(file.path_text(), path) };
        self.vfs_files.retain(&mut cells.data_maps, keep_file);
        proof {
            lemma_kept(
                before.files,
                self.vfs_files.records@,
                |record: ProcessVfsFileRecord| !crate::text::within(record.name(), path@),
            );
        }
        let manager = cells.managers.get_mut(&self.resource_manager.cell);
        let keep_resource_file = |file: &ProcessVfsResourceFileRecord| -> (kept: bool)
            ensures
                kept == !crate::text::within(file.name(), path@),
            { !is_within(file.path_text(), path) };
        manager.vfs_resource_files.retain(&mut cells.resources.maps, keep_resource_file);
        proof {
            lemma_kept(
                before.resource_files,
                manager.vfs_resource_files.records@,
                |record: ProcessVfsResourceFileRecord| !crate::text::within(record.name(), path@),
            );
        }
        retain_outside(cells.directories.get_mut(&self.vfs_directories), path);
    }
}

/// No record, fork, catalogue entry or lock has the path.
pub open spec fn path_gone(model: FilesModel, path: Seq<char>) -> bool {
    &&& crate::vfs::record_index(model.files, path) < 0
    &&& crate::vfs::record_index(model.resource_files, path) < 0
    &&& crate::forks::entry_index(model.data_forks, path) < 0
    &&& crate::forks::entry_index(model.resource_forks, path) < 0
    &&& !model.catalogue.metadata.dom().contains(path)
    &&& !model.locked.contains(path)
}

/// No path occurs twice in a fork index.
pub open spec fn indexes_apart(model: FilesModel) -> bool {
    &&& crate::forks::one_fork_per_path(model.data_forks)
    &&& crate::forks::one_fork_per_path(model.resource_forks)
}

/// Dropping records brings no record back.
proof fn lemma_others<R: VfsEntry>(records: Seq<R>, path: Seq<char>)
    ensures
        crate::vfs::record_index(others(records, path), path) < 0,
        forall|i: int|
            0 <= i < others(records, path).len() ==> records.contains(
                #[trigger] others(records, path)[i],
            ),
{
    let keep = |record: R| !crate::text::same_name(record.name(), path);
    let after = others(records, path);
    crate::vfs::lemma_record_index(after, path);
    assert forall|i: int| 0 <= i < after.len() implies records.contains(#[trigger] after[i])
        && keep(after[i]) by {
        records.lemma_filter_pred(keep, i);
        records.lemma_filter_contains_rev(keep, after[i]);
    }
}

/// A later deletion brings nothing back.
proof fn lemma_stays_deleted(model: FilesModel, path: Seq<char>, later: Seq<char>)
    requires
        indexes_apart(model),
        !changed_file(model.files, path),
        !changed_resource_file(model.resource_files, path),
    ensures
        indexes_apart(model.deleted(later)),
        !changed_file(model.deleted(later).files, path),
        !changed_resource_file(model.deleted(later).resource_files, path),
        path_gone(model, path) ==> path_gone(model.deleted(later), path),
{
    let after = model.deleted(later);
    lemma_others(model.files, later);
    lemma_others(model.resource_files, later);
    crate::forks::removed_fork_is_gone(model.data_forks, later);
    crate::forks::removed_fork_is_gone(model.resource_forks, later);
    crate::vfs::lemma_record_index(model.files, path);
    crate::vfs::lemma_record_index(model.resource_files, path);
    crate::vfs::lemma_record_index(after.files, path);
    crate::vfs::lemma_record_index(after.resource_files, path);
    crate::forks::lemma_entry_index(model.data_forks, path);
    crate::forks::lemma_entry_index(model.resource_forks, path);
    crate::forks::lemma_entry_index(after.data_forks, path);
    crate::forks::lemma_entry_index(after.resource_forks, path);
}

/// Of a path that was deleted nothing is left, unless a changed file took it.
pub proof fn deleted_path_is_gone(model: FilesModel, path: Seq<char>)
    requires
        indexes_apart(model),
        !changed_file(model.files, path),
        !changed_resource_file(model.resource_files, path),
    ensures
        path_gone(model.deleted(path), path),
{
    lemma_others(model.files, path);
    lemma_others(model.resource_files, path);
    crate::forks::removed_fork_is_gone(model.data_forks, path);
    crate::forks::removed_fork_is_gone(model.resource_forks, path);
}

proof fn lemma_deleted_all(model: FilesModel, paths: Seq<String>, path: Seq<char>)
    requires
        indexes_apart(model),
        !changed_file(model.files, path),
        !changed_resource_file(model.resource_files, path),
    ensures
        indexes_apart(model.deleted_all(paths)),
        !changed_file(model.deleted_all(paths).files, path),
        !changed_resource_file(model.deleted_all(paths).resource_files, path),
        (exists|k: int| 0 <= k < paths.len() && (#[trigger] paths[k])@ == path) ==> path_gone(
            model.deleted_all(paths),
            path,
        ),
    decreases paths.len(),
{
    if paths.len() > 0 {
        let before = model.deleted_all(paths.drop_last());
        lemma_deleted_all(model, paths.drop_last(), path);
        lemma_stays_deleted(before, path, paths.last()@);
        if exists|k: int| 0 <= k < paths.len() && (#[trigger] paths[k])@ == path {
            let k = choose|k: int| 0 <= k < paths.len() && (#[trigger] paths[k])@ == path;
            if k < paths.len() - 1 {
                assert(paths.drop_last()[k]@ == path);
            } else {
                deleted_path_is_gone(before, path);
            }
        }
    }
}

/// After the catalogue was published nothing is left of a path that was
/// queued for deletion, unless a changed file took it.
pub proof fn queued_deletion_is_carried_out(
    model: FilesModel,
    directories: Seq<ProcessVfsDirectory>,
    deleted_paths: Seq<String>,
    k: int,
)
    requires
        0 <= k < deleted_paths.len(),
        indexes_apart(model),
        !changed_file(model.files, deleted_paths[k]@),
        !changed_resource_file(model.resource_files, deleted_paths[k]@),
    ensures
        path_gone(model.published(directories, deleted_paths), deleted_paths[k]@),
{
    let published = FilesModel {
        catalogue: model.catalogue.published_all(
            published_records(model.files, model.resource_files),
            directories,
        ),
        ..model
    };
    lemma_deleted_all(published, deleted_paths, deleted_paths[k]@);
}

} // verus!
