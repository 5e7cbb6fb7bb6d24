//! File systems that adapters share, and detached copies of them.

use crate::assoc::AssocMap;
use crate::cells::{CellDefault, CellValue, SharedCells, SharedProcessValue};
use crate::file_system::{FileCells, ProcessFileSystemState, ProcessStdioStreamRecord};
use crate::resource_manager::{
    ProcessResourceFileRecord, ProcessResourceManagerState, ProcessResourceTables,
    ProcessVfsResourceRecord, ResourceCells, SharedProcessResourceManager,
    SharedProcessResourcePolicy,
};
use crate::vfs::{
    FileIndex, ProcessVfsFileRecord, ProcessVfsFileRecords, ProcessVfsResourceFileRecord,
};
use crate::vfs_resources::ResourceFileIndex;
use vstd::prelude::*;

verus! {

impl CellDefault for ProcessStdioStreamRecord {
    open spec fn is_default(&self) -> bool {
        &&& self.ref_num is None
        &&& self.path is None
        &&& self.position == 0
        &&& !self.standard
        &&& !self.readable
        &&& !self.writable
        &&& !self.append
        &&& !self.closed
        &&& !self.eof
        &&& !self.error
    }

    fn default_value() -> (value: Self) {
        ProcessStdioStreamRecord {
            ref_num: None,
            path: None,
            position: 0,
            standard: false,
            readable: false,
            writable: false,
            append: false,
            closed: false,
            eof: false,
            error: false,
        }
    }
}

impl CellValue for ProcessStdioStreamRecord {
    open spec fn same(&self, other: &Self) -> bool {
        &&& *self == (ProcessStdioStreamRecord { path: self.path, ..*other })
        &&& self.path.same(&other.path)
    }

    fn copy_value(&self) -> (copy: Self) {
        ProcessStdioStreamRecord { path: self.path.copy_value(), ..*self }
    }
}

impl ProcessResourceManagerState {
    /// Every fork that the manager's files name exists.
    pub open spec fn forks_exist(&self, cells: &ResourceCells) -> bool {
        self.vfs_resource_files.forks_exist(&cells.maps, &cells.forks)
    }

    /// A copy with cells of its own.
    pub fn detached_clone(&self, cells: &mut ResourceCells) -> (copy: Self)
        requires
            self.valid(old(cells)),
            self.forks_exist(old(cells)),
        ensures
            copy.valid(final(cells)),
            copy.forks_exist(final(cells)),
            copy.is_new(old(cells)),
            copy.current_resource_file.id() == old(cells).current_files@.len(),
            copy.policy.id() == old(cells).policies@.len(),
            copy.vfs_resource_files.resource_forks.id() == old(cells).maps@.len(),
            final(cells).current_files@ == old(cells).current_files@.push(
                old(cells).current_files@[self.current_resource_file.id()],
            ),
            final(cells).policies@ == old(cells).policies@.push(
                self.policy.state(&old(cells).policies),
            ),
            crate::cells::cells_extend(old(cells).maps@, final(cells).maps@),
            crate::cells::cells_extend(old(cells).forks@, final(cells).forks@),
            final(cells).maps@.len() == old(cells).maps@.len() + 1,
            self.tables.same(&copy.tables),
            self.vfs_resources.same(&copy.vfs_resources),
            resource_files_copied(self, old(cells), &copy, final(cells)),
    {
        let current: i16 = *cells.current_files.get(&self.current_resource_file);
        let policy = *cells.policies.get(&self.policy.cell);
        ProcessResourceManagerState {
            current_resource_file: cells.current_files.allocate(current),
            policy: SharedProcessResourcePolicy { cell: cells.policies.allocate(policy) },
            tables: self.tables.copy_value(),
            vfs_resource_files: self.vfs_resource_files.detached_clone(
                &mut cells.maps,
                &mut cells.forks,
            ),
            vfs_resources: self.vfs_resources.copy_value(),
        }
    }
}

/// The resource files of `copy` are detached copies of those of `state`.
pub open spec fn resource_files_copied(
    state: &ProcessResourceManagerState,
    before: &ResourceCells,
    copy: &ProcessResourceManagerState,
    after: &ResourceCells,
) -> bool {
    crate::vfs_snapshot::resource_copy(
        state.vfs_resource_files.records@,
        before.maps@[state.vfs_resource_files.resource_forks.id()]@,
        before.forks@,
        copy.vfs_resource_files.records@,
        after.maps@[copy.vfs_resource_files.resource_forks.id()]@,
        after.forks@,
    )
}

impl ProcessFileSystemState {
    /// Every fork that the file system's records name exists.
    pub open spec fn forks_exist(&self, cells: &FileCells) -> bool {
        &&& self.vfs_files.forks_exist(&cells.resources.forks)
        &&& self.resource_manager.state(&cells.managers).forks_exist(&cells.resources)
    }

    /// The part of `copy` that a detached snapshot takes over: the catalogue,
    /// the files with their forks, and the launched application.
    pub open spec fn catalogue_copied(&self, before: &FileCells, copy: &Self, after: &FileCells) -> bool {
        &&& before.volumes@[self.vfs_volumes.id()].same(&after.volumes@[copy.vfs_volumes.id()])
        &&& after.next_volumes@[copy.next_vfs_volume_ref_num.id()]
            == before.next_volumes@[self.next_vfs_volume_ref_num.id()]
        &&& before.directories@[self.vfs_directories.id()].same(
            &after.directories@[copy.vfs_directories.id()],
        )
        &&& after.next_directories@[copy.next_vfs_dir_id.id()]
            == before.next_directories@[self.next_vfs_dir_id.id()]
        &&& after.default_directories@[copy.default_dir_id.id()]
            == before.default_directories@[self.default_dir_id.id()]
        &&& before.metadata@[self.classic_vfs_metadata.id()].same(
            &after.metadata@[copy.classic_vfs_metadata.id()],
        )
        &&& after.locked@[copy.classic_locked_files.id()]@
            == before.locked@[self.classic_locked_files.id()]@
        &&& after.next_file_ids@[copy.classic_next_vfs_file_id.id()]
            == before.next_file_ids@[self.classic_next_vfs_file_id.id()]
        &&& after.next_timestamps@[copy.classic_next_vfs_timestamp.id()]
            == before.next_timestamps@[self.classic_next_vfs_timestamp.id()]
        &&& copy.vfs_files.records@.len() == self.vfs_files.records@.len()
        &&& forall|i: int|
            0 <= i < self.vfs_files.records@.len() ==> crate::vfs_snapshot::file_copied(
                self.vfs_files.records@[i],
                #[trigger] copy.vfs_files.records@[i],
                before.resources.forks@,
                after.resources.forks@,
            )
        &&& copy.vfs_files.index(&after.data_maps) == (FileIndex {
            records: Seq::<ProcessVfsFileRecord>::empty(),
            forks: Seq::<(Seq<char>, int)>::empty(),
        }).pushed_all(copy.vfs_files.records@)
        &&& copy.launched_app_path == self.launched_app_path
        &&& resource_files_copied(
            &self.resource_manager.state(&before.managers),
            &before.resources,
            &copy.resource_manager.state(&after.managers),
            &after.resources,
        )
    }

    /// A file system of its own with copies of the catalogue and the files.
    /// Open files, streams and resources in use stay behind.
    pub fn detached_vfs_snapshot(&self, cells: &mut FileCells) -> (snapshot: Self)
        requires
            self.valid(old(cells)),
            self.forks_exist(old(cells)),
        ensures
            old(cells).extended_by(final(cells)),
            snapshot.valid(final(cells)),
            snapshot.is_new(old(cells)),
            self.catalogue_copied(old(cells), &snapshot, final(cells)),
            snapshot.access_unused(final(cells)),
            snapshot.forks_exist(final(cells)),
            snapshot.resource_manager.state(&final(cells).managers).is_new(&old(cells).resources),
    {
        let mut snapshot = ProcessFileSystemState::new(cells);
        snapshot.vfs_volumes = self.vfs_volumes.detached_clone(&mut cells.volumes);
        snapshot.next_vfs_volume_ref_num = self.next_vfs_volume_ref_num.detached_clone(
            &mut cells.next_volumes,
        );
        snapshot.vfs_directories = self.vfs_directories.detached_clone(&mut cells.directories);
        snapshot.next_vfs_dir_id = self.next_vfs_dir_id.detached_clone(&mut cells.next_directories);
        snapshot.default_dir_id = self.default_dir_id.detached_clone(
            &mut cells.default_directories,
        );
        snapshot.classic_vfs_metadata = self.classic_vfs_metadata.detached_clone(
            &mut cells.metadata,
        );
        snapshot.classic_locked_files = self.classic_locked_files.detached_clone(&mut cells.locked);
        snapshot.classic_next_vfs_file_id = self.classic_next_vfs_file_id.detached_clone(
            &mut cells.next_file_ids,
        );
        snapshot.classic_next_vfs_timestamp = self.classic_next_vfs_timestamp.detached_clone(
            &mut cells.next_timestamps,
        );
        let ghost present = cells.resources.forks@;
        let resource_files = cells.managers.get(
            &self.resource_manager.cell,
        ).vfs_resource_files.detached_clone(&mut cells.resources.maps, &mut cells.resources.forks);
        let ghost resources = cells.resources;
        snapshot.vfs_files = self.vfs_files.detached_clone(
            &mut cells.data_maps,
            &mut cells.resources.forks,
        );
        snapshot.launched_app_path = self.launched_app_path.copy_value();
        cells.managers.get_mut(&snapshot.resource_manager.cell).vfs_resource_files = resource_files;
        proof {
            let own = self.resource_manager.state(&old(cells).managers);
            crate::vfs_snapshot::lemma_more_forks(
                own.vfs_resource_files.records@,
                old(cells).resources.maps@[own.vfs_resource_files.resource_forks.id()]@,
                old(cells).resources.forks@,
                resource_files.records@,
                cells.resources.maps@[resource_files.resource_forks.id()]@,
                resources.forks@,
                cells.resources.forks@,
            );
        }
        snapshot
    }

    /// The part of `copy` that only a full copy takes over: open files,
    /// streams, working directories and resources in use.
    pub open spec fn access_copied(&self, before: &FileCells, copy: &Self, after: &FileCells) -> bool {
        &&& copy.files.records(&after.open_files) == self.files.records(&before.open_files)
        &&& after.writable@[copy.writable_refnums.id()]@
            == before.writable@[self.writable_refnums.id()]@
        &&& before.completions@[self.pending_completions.id()].same(
            &after.completions@[copy.pending_completions.id()],
        )
        &&& before.working_directories@[self.working_directories.id()].same(
            &after.working_directories@[copy.working_directories.id()],
        )
        &&& after.next_working_directories@[copy.next_working_directory_ref_num.id()]
            == before.next_working_directories@[self.next_working_directory_ref_num.id()]
        &&& after.application_directories@[copy.application_working_directory_ref_num.id()]
            == before.application_directories@[self.application_working_directory_ref_num.id()]
        &&& self.stdio_streams.same(&copy.stdio_streams)
        &&& self.deleted_vfs_file_paths.same(&copy.deleted_vfs_file_paths)
        &&& copy.next_file_ref_num == self.next_file_ref_num
        &&& self.resource_manager.state(&before.managers).tables.same(
            &copy.resource_manager.state(&after.managers).tables,
        )
        &&& self.resource_manager.state(&before.managers).vfs_resources.same(
            &copy.resource_manager.state(&after.managers).vfs_resources,
        )
        &&& after.resources.current_files@[copy.resource_manager.state(
            &after.managers,
        ).current_resource_file.id()] == before.resources.current_files@[self.resource_manager.state(
            &before.managers,
        ).current_resource_file.id()]
        &&& copy.resource_manager.state(&after.managers).policy.state(&after.resources.policies)
            == self.resource_manager.state(&before.managers).policy.state(
            &before.resources.policies,
        )
    }

    /// A copy with cells of its own.
    pub fn detached_clone(&self, cells: &mut FileCells) -> (copy: Self)
        requires
            self.valid(old(cells)),
            self.forks_exist(old(cells)),
        ensures
            old(cells).extended_by(final(cells)),
            copy.valid(final(cells)),
            copy.is_new(old(cells)),
            copy.forks_exist(final(cells)),
            copy.resource_manager.state(&final(cells).managers).is_new(&old(cells).resources),
            self.catalogue_copied(old(cells), &copy, final(cells)),
            self.access_copied(old(cells), &copy, final(cells)),
    {
        let manager = cells.managers.get(&self.resource_manager.cell).detached_clone(
            &mut cells.resources,
        );
        let ghost resources = cells.resources;
        let vfs_files = self.vfs_files.detached_clone(
            &mut cells.data_maps,
            &mut cells.resources.forks,
        );
        proof {
            let own = self.resource_manager.state(&old(cells).managers);
            crate::vfs_snapshot::lemma_more_forks(
                own.vfs_resource_files.records@,
                old(cells).resources.maps@[own.vfs_resource_files.resource_forks.id()]@,
                old(cells).resources.forks@,
                manager.vfs_resource_files.records@,
                cells.resources.maps@[manager.vfs_resource_files.resource_forks.id()]@,
                resources.forks@,
                cells.resources.forks@,
            );
        }
        ProcessFileSystemState {
            files: self.files.detached_clone(&mut cells.open_files),
            writable_refnums: self.writable_refnums.detached_clone(&mut cells.writable),
            pending_completions: self.pending_completions.detached_clone(&mut cells.completions),
            working_directories: self.working_directories.detached_clone(
                &mut cells.working_directories,
            ),
            next_working_directory_ref_num: self.next_working_directory_ref_num.detached_clone(
                &mut cells.next_working_directories,
            ),
            application_working_directory_ref_num:
                self.application_working_directory_ref_num.detached_clone(
                &mut cells.application_directories,
            ),
            stdio_streams: self.stdio_streams.copy_value(),
            vfs_volumes: self.vfs_volumes.detached_clone(&mut cells.volumes),
            next_vfs_volume_ref_num: self.next_vfs_volume_ref_num.detached_clone(
                &mut cells.next_volumes,
            ),
            vfs_directories: self.vfs_directories.detached_clone(&mut cells.directories),
            next_vfs_dir_id: self.next_vfs_dir_id.detached_clone(&mut cells.next_directories),
            default_dir_id: self.default_dir_id.detached_clone(&mut cells.default_directories),
            classic_vfs_metadata: self.classic_vfs_metadata.detached_clone(&mut cells.metadata),
            classic_locked_files: self.classic_locked_files.detached_clone(&mut cells.locked),
            classic_next_vfs_file_id: self.classic_next_vfs_file_id.detached_clone(
                &mut cells.next_file_ids,
            ),
            classic_next_vfs_timestamp: self.classic_next_vfs_timestamp.detached_clone(
                &mut cells.next_timestamps,
            ),
            vfs_files,
            deleted_vfs_file_paths: self.deleted_vfs_file_paths.copy_value(),
            launched_app_path: self.launched_app_path.copy_value(),
            resource_manager: SharedProcessResourceManager::from_value(
                &mut cells.managers,
                manager,
            ),
            next_file_ref_num: self.next_file_ref_num,
        }
    }

    /// The same handles with nothing in the tables of its own.
    fn vacated(&self) -> (state: Self)
        ensures
            state.same_cells(self),
            state.files.cell.id() == self.files.cell.id(),
            state.resource_manager.id() == self.resource_manager.id(),
    {
        ProcessFileSystemState {
            files: self.files.shared_handle(),
            writable_refnums: self.writable_refnums.shared_handle(),
            pending_completions: self.pending_completions.shared_handle(),
            working_directories: self.working_directories.shared_handle(),
            next_working_directory_ref_num: self.next_working_directory_ref_num.shared_handle(),
            application_working_directory_ref_num:
                self.application_working_directory_ref_num.shared_handle(),
            stdio_streams: AssocMap::new(),
            vfs_volumes: self.vfs_volumes.shared_handle(),
            next_vfs_volume_ref_num: self.next_vfs_volume_ref_num.shared_handle(),
            vfs_directories: self.vfs_directories.shared_handle(),
            next_vfs_dir_id: self.next_vfs_dir_id.shared_handle(),
            default_dir_id: self.default_dir_id.shared_handle(),
            classic_vfs_metadata: self.classic_vfs_metadata.shared_handle(),
            classic_locked_files: self.classic_locked_files.shared_handle(),
            classic_next_vfs_file_id: self.classic_next_vfs_file_id.shared_handle(),
            classic_next_vfs_timestamp: self.classic_next_vfs_timestamp.shared_handle(),
            vfs_files: ProcessVfsFileRecords {
                records: Vec::new(),
                data_forks: self.vfs_files.data_forks.shared_handle(),
            },
            deleted_vfs_file_paths: Vec::new(),
            launched_app_path: None,
            resource_manager: self.resource_manager.shared_handle(),
            next_file_ref_num: self.next_file_ref_num,
        }
    }

    /// Of the cells outside the manager only the index of its resource files
    /// changed, and forks were added.
    pub open spec fn resource_files_step(&self, before: &FileCells, after: &FileCells) -> bool {
        &&& self.resource_manager.state(&before.managers).vfs_resource_files.step(
            &before.resources.maps,
            &before.resources.forks,
            &self.resource_manager.state(&after.managers).vfs_resource_files,
            &after.resources.maps,
            &after.resources.forks,
        )
        &&& *after == (FileCells {
            managers: after.managers,
            resources: ResourceCells {
                maps: after.resources.maps,
                forks: after.resources.forks,
                ..before.resources
            },
            ..*before
        })
    }

    /// Add an open resource file.
    pub fn push_resource_file(&self, cells: &mut FileCells, file: ProcessResourceFileRecord)
        requires
            self.valid(old(cells)),
        ensures
            self.valid(final(cells)),
            crate::cells::only_cell_changed(
                old(cells).managers@,
                final(cells).managers@,
                self.resource_manager.id(),
            ),
            self.resource_manager.state(&final(cells).managers).tables.resource_files@
                == self.resource_manager.state(
                &old(cells).managers,
            ).tables.resource_files@.push(file),
            ({
                let before = self.resource_manager.state(&old(cells).managers);
                let after = self.resource_manager.state(&final(cells).managers);
                after == (ProcessResourceManagerState {
                    tables: ProcessResourceTables {
                        resource_files: after.tables.resource_files,
                        ..before.tables
                    },
                    ..before
                })
            }),
            *final(cells) == (FileCells { managers: final(cells).managers, ..*old(cells) }),
    {
        cells.managers.get_mut(&self.resource_manager.cell).tables.resource_files.push(file);
    }

    /// Add a resource-file record.
    pub fn push_vfs_resource_file(&self, cells: &mut FileCells, file: ProcessVfsResourceFileRecord)
        requires
            self.valid(old(cells)),
        ensures
            self.valid(final(cells)),
            crate::cells::only_cell_changed(
                old(cells).managers@,
                final(cells).managers@,
                self.resource_manager.id(),
            ),
            self.resource_manager.state(&final(cells).managers).files(&final(cells).resources)
                == self.resource_manager.state(&old(cells).managers).files(
                &old(cells).resources,
            ).pushed(file),
            self.resource_files_step(old(cells), final(cells)),
            ({
                let before = self.resource_manager.state(&old(cells).managers);
                let after = self.resource_manager.state(&final(cells).managers);
                after == (ProcessResourceManagerState {
                    vfs_resource_files: after.vfs_resource_files,
                    ..before
                })
            }),
    {
        cells.managers.get_mut(&self.resource_manager.cell).vfs_resource_files.push(
            &mut cells.resources.maps,
            &mut cells.resources.forks,
            file,
        );
    }

    /// Add a resource.
    pub fn push_vfs_resource(&self, cells: &mut FileCells, resource: ProcessVfsResourceRecord)
        requires
            self.valid(old(cells)),
        ensures
            self.valid(final(cells)),
            crate::cells::only_cell_changed(
                old(cells).managers@,
                final(cells).managers@,
                self.resource_manager.id(),
            ),
            self.resource_manager.state(&final(cells).managers).vfs_resources@
                == self.resource_manager.state(&old(cells).managers).vfs_resources@.push(resource),
            ({
                let before = self.resource_manager.state(&old(cells).managers);
                let after = self.resource_manager.state(&final(cells).managers);
                after == (ProcessResourceManagerState {
                    vfs_resources: after.vfs_resources,
                    ..before
                })
            }),
            *final(cells) == (FileCells { managers: final(cells).managers, ..*old(cells) }),
    {
        cells.managers.get_mut(&self.resource_manager.cell).vfs_resources.push(resource);
    }

    /// Add resources.
    pub fn extend_vfs_resources(
        &self,
        cells: &mut FileCells,
        resources: Vec<ProcessVfsResourceRecord>,
    )
        requires
            self.valid(old(cells)),
        ensures
            self.valid(final(cells)),
            crate::cells::only_cell_changed(
                old(cells).managers@,
                final(cells).managers@,
                self.resource_manager.id(),
            ),
            self.resource_manager.state(&final(cells).managers).vfs_resources@
                == self.resource_manager.state(&old(cells).managers).vfs_resources@ + resources@,
            ({
                let before = self.resource_manager.state(&old(cells).managers);
                let after = self.resource_manager.state(&final(cells).managers);
                after == (ProcessResourceManagerState {
                    vfs_resources: after.vfs_resources,
                    ..before
                })
            }),
            *final(cells) == (FileCells { managers: final(cells).managers, ..*old(cells) }),
    {
        let mut resources = resources;
        cells.managers.get_mut(&self.resource_manager.cell).vfs_resources.append(&mut resources);
    }

    /// Replace the resource files, the resource-file records and the
    /// resources.
    pub fn with_resources(
        self,
        cells: &mut FileCells,
        resource_files: Vec<ProcessResourceFileRecord>,
        vfs_resource_files: Vec<ProcessVfsResourceFileRecord>,
        vfs_resources: Vec<ProcessVfsResourceRecord>,
    ) -> (state: Self)
        requires
            self.valid(old(cells)),
        ensures
            state == self,
            state.valid(final(cells)),
            crate::cells::only_cell_changed(
                old(cells).managers@,
                final(cells).managers@,
                self.resource_manager.id(),
            ),
            ({
                let manager = self.resource_manager.state(&final(cells).managers);
                &&& manager.tables.resource_files == resource_files
                &&& manager.files(&final(cells).resources) == (ResourceFileIndex {
                    records: Seq::empty(),
                    forks: Seq::empty(),
                    fork_count: old(cells).resources.forks@.len() as int,
                }).pushed_all(vfs_resource_files@)
                &&& manager.vfs_resources == vfs_resources
                &&& manager == (ProcessResourceManagerState {
                    tables: ProcessResourceTables {
                        resource_files,
                        ..self.resource_manager.state(&old(cells).managers).tables
                    },
                    vfs_resource_files: manager.vfs_resource_files,
                    vfs_resources,
                    ..self.resource_manager.state(&old(cells).managers)
                })
            }),
            self.resource_files_step(old(cells), final(cells)),
    {
        let manager = cells.managers.get_mut(&self.resource_manager.cell);
        manager.tables.resource_files = resource_files;
        manager.vfs_resource_files.replace(
            &mut cells.resources.maps,
            &mut cells.resources.forks,
            vfs_resource_files,
        );
        manager.vfs_resources = vfs_resources;
        self
    }
}

/// A handle to a process's file system.
pub struct SharedProcessFileSystem {
    pub cell: SharedProcessValue<ProcessFileSystemState>,
}

impl SharedProcessFileSystem {
    pub open spec fn id(&self) -> int {
        self.cell.id()
    }

    pub open spec fn state(&self, systems: &SharedCells<ProcessFileSystemState>) -> ProcessFileSystemState {
        systems@[self.cell.id()]
    }

    pub open spec fn valid(
        &self,
        systems: &SharedCells<ProcessFileSystemState>,
        cells: &FileCells,
    ) -> bool {
        self.cell.valid(systems@) && self.state(systems).valid(cells)
    }

    pub fn from_state(
        systems: &mut SharedCells<ProcessFileSystemState>,
        state: ProcessFileSystemState,
    ) -> (file_system: Self)
        ensures
            file_system.id() == old(systems)@.len(),
            final(systems)@ == old(systems)@.push(state),
    {
        SharedProcessFileSystem { cell: systems.allocate(state) }
    }

    /// Another handle to the same file system.
    pub fn shared_handle(&self) -> (handle: Self)
        ensures
            handle.id() == self.id(),
    {
        SharedProcessFileSystem { cell: self.cell.shared_handle() }
    }

    pub fn ptr_eq(&self, other: &Self) -> (same: bool)
        ensures
            same == (self.id() == other.id()),
    {
        self.cell.ptr_eq(&other.cell)
    }

    /// Change the file system during one operation.
    pub fn with_mut<R>(
        &self,
        systems: &mut SharedCells<ProcessFileSystemState>,
        operation: impl FnOnce(&mut ProcessFileSystemState) -> R,
    ) -> (result: R)
        requires
            self.cell.valid(old(systems)@),
            forall|state: &mut ProcessFileSystemState|
                *state == self.state(old(systems)) ==> call_requires(operation, (state,)),
        ensures
            exists|state: &mut ProcessFileSystemState|
                #![trigger call_ensures(operation, (state,), result)]
                *state == self.state(old(systems)) && call_ensures(operation, (state,), result)
                    && final(systems)@ == old(systems)@.update(self.id(), *final(state)),
    {
        self.cell.with_mut(systems, operation)
    }

    /// A detached snapshot of the catalogue and the files.
    pub fn detached_vfs_snapshot(
        &self,
        systems: &mut SharedCells<ProcessFileSystemState>,
        cells: &mut FileCells,
    ) -> (snapshot: Self)
        requires
            self.valid(old(systems), old(cells)),
            self.state(old(systems)).forks_exist(old(cells)),
        ensures
            snapshot.id() == old(systems)@.len(),
            crate::cells::cells_extend(old(systems)@, final(systems)@),
            final(systems)@.len() == old(systems)@.len() + 1,
            old(cells).extended_by(final(cells)),
            snapshot.valid(final(systems), final(cells)),
            snapshot.state(final(systems)).is_new(old(cells)),
            snapshot.state(final(systems)).forks_exist(final(cells)),
            snapshot.state(final(systems)).resource_manager.state(&final(cells).managers).is_new(
                &old(cells).resources,
            ),
            snapshot.state(final(systems)).access_unused(final(cells)),
            self.state(old(systems)).catalogue_copied(
                old(cells),
                &snapshot.state(final(systems)),
                final(cells),
            ),
    {
        let state = systems.get(&self.cell).detached_vfs_snapshot(cells);
        SharedProcessFileSystem { cell: systems.allocate(state) }
    }

    /// A copy with cells of its own.
    pub fn detached_clone(
        &self,
        systems: &mut SharedCells<ProcessFileSystemState>,
        cells: &mut FileCells,
    ) -> (copy: Self)
        requires
            self.valid(old(systems), old(cells)),
            self.state(old(systems)).forks_exist(old(cells)),
        ensures
            copy.id() == old(systems)@.len(),
            crate::cells::cells_extend(old(systems)@, final(systems)@),
            final(systems)@.len() == old(systems)@.len() + 1,
            old(cells).extended_by(final(cells)),
            copy.valid(final(systems), final(cells)),
            copy.state(final(systems)).is_new(old(cells)),
            copy.state(final(systems)).forks_exist(final(cells)),
            copy.state(final(systems)).resource_manager.state(&final(cells).managers).is_new(
                &old(cells).resources,
            ),
            self.state(old(systems)).catalogue_copied(
                old(cells),
                &copy.state(final(systems)),
                final(cells),
            ),
            self.state(old(systems)).access_copied(
                old(cells),
                &copy.state(final(systems)),
                final(cells),
            ),
    {
        let state = systems.get(&self.cell).detached_clone(cells);
        SharedProcessFileSystem { cell: systems.allocate(state) }
    }

    /// Share the process's file system, which takes this one's records over.
    pub fn attach_to(
        &mut self,
        systems: &mut SharedCells<ProcessFileSystemState>,
        cells: &mut FileCells,
        process_file_system: &Self,
    )
        requires
            old(self).valid(old(systems), old(cells)),
            process_file_system.valid(old(systems), old(cells)),
            old(self).id() != process_file_system.id() ==> process_file_system.state(
                old(systems),
            ).can_merge(&old(self).state(old(systems)), old(cells)),
        ensures
            final(self).id() == process_file_system.id(),
            final(self).valid(final(systems), final(cells)),
            final(systems)@.len() == old(systems)@.len(),
            old(self).id() == process_file_system.id() ==> final(systems)@ == old(systems)@
                && *final(cells) == *old(cells),
            forall|i: int|
                0 <= i < old(systems)@.len() && i != old(self).id() && i != process_file_system.id()
                    ==> #[trigger] final(systems)@[i] == old(systems)@[i],
            old(self).id() != process_file_system.id() ==> ({
                let target = process_file_system.state(old(systems));
                let source = old(self).state(old(systems));
                let after_target = process_file_system.state(final(systems));
                let after_source = final(systems)@[old(self).id()];
                &&& after_target.same_cells(&target)
                &&& target.merges_access(
                    &source,
                    old(cells),
                    &after_target,
                    &after_source,
                    final(cells),
                )
                &&& target.merges_directories(&source, old(cells), final(cells))
                &&& target.merges_files(
                    &source,
                    old(cells),
                    &after_target,
                    &after_source,
                    final(cells),
                )
                &&& target.merges_resources(
                    &source,
                    old(cells),
                    &after_target,
                    &after_source,
                    final(cells),
                )
            }),
    {
        if self.ptr_eq(process_file_system) {
            return;
        }
        let placeholder = systems.get(&self.cell).vacated();
        let mut source = self.cell.replace(systems, placeholder);
        systems.get_mut(&process_file_system.cell).merge_from(cells, &mut source);
        systems.set(&self.cell, source);
        self.cell = process_file_system.cell.shared_handle();
    }
}

} // verus!
