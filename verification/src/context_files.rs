//! Path indexes of an adapter that join a process's file system.

use crate::assoc::{AssocMap, KeySet};
use crate::catalogue::process_vfs_directories_are_pristine;
use crate::cells::SharedProcessValue;
use crate::file_system::{FileCells, ProcessFileSystemState};
use crate::forks::ProcessForkMap;
use crate::process_context::{ProcessCells, ProcessContext};
use crate::resource_manager::ResourceCells;
use crate::vfs::{ProcessVfsDirectory, ProcessVfsMetadata};
use vstd::prelude::*;

verus! {

/// The first directory IDs that an unused catalogue hands out.
pub open spec fn unused_dir_id(id: u32) -> bool {
    id == 0 || id == 16 || id == 18
}

/// The default directory of an unused catalogue: none, or the root.
pub open spec fn unused_default_dir(id: u32) -> bool {
    id == 0 || id == 2
}

/// The path indexes of an adapter.
pub struct ClassicCatalogue {
    pub directories: SharedProcessValue<Vec<ProcessVfsDirectory>>,
    pub metadata: SharedProcessValue<AssocMap<String, ProcessVfsMetadata>>,
    pub locked_files: SharedProcessValue<KeySet<String>>,
    pub next_dir_id: SharedProcessValue<u32>,
    pub next_file_id: SharedProcessValue<u32>,
    pub next_timestamp: SharedProcessValue<u32>,
    pub default_dir_id: SharedProcessValue<u32>,
}

impl ClassicCatalogue {
    /// The indexes exist.
    pub open spec fn valid(&self, cells: &FileCells) -> bool {
        &&& self.directories.valid(cells.directories@)
        &&& self.metadata.valid(cells.metadata@)
        &&& self.locked_files.valid(cells.locked@)
        &&& self.next_dir_id.valid(cells.next_directories@)
        &&& self.next_file_id.valid(cells.next_file_ids@)
        &&& self.next_timestamp.valid(cells.next_timestamps@)
        &&& self.default_dir_id.valid(cells.default_directories@)
    }

    /// Each index can join the process's: at most one of the two is in use.
    pub open spec fn can_join(&self, process: &ProcessFileSystemState, cells: &FileCells) -> bool {
        &&& crate::cells::attachable(
            cells.directories@,
            self.directories.id(),
            process.vfs_directories.id(),
            |value: Vec<ProcessVfsDirectory>| crate::catalogue::directories_pristine(value@),
        )
        &&& crate::cells::attachable(
            cells.metadata@,
            self.metadata.id(),
            process.classic_vfs_metadata.id(),
            |value: AssocMap<String, ProcessVfsMetadata>|
                value@ == Map::<Seq<char>, ProcessVfsMetadata>::empty(),
        )
        &&& crate::cells::attachable(
            cells.locked@,
            self.locked_files.id(),
            process.classic_locked_files.id(),
            |value: KeySet<String>| value@ == Set::<Seq<char>>::empty(),
        )
        &&& crate::cells::attachable(
            cells.next_directories@,
            self.next_dir_id.id(),
            process.next_vfs_dir_id.id(),
            |value: u32| unused_dir_id(value),
        )
        &&& crate::cells::attachable(
            cells.next_file_ids@,
            self.next_file_id.id(),
            process.classic_next_vfs_file_id.id(),
            |value: u32| value == 32,
        )
        &&& crate::cells::attachable(
            cells.next_timestamps@,
            self.next_timestamp.id(),
            process.classic_next_vfs_timestamp.id(),
            |value: u32| value == 1,
        )
        &&& crate::cells::attachable(
            cells.default_directories@,
            self.default_dir_id.id(),
            process.default_dir_id.id(),
            |value: u32| unused_default_dir(value),
        )
    }

    /// The indexes are those of the process.
    pub open spec fn shares(&self, process: &ProcessFileSystemState) -> bool {
        &&& self.directories.id() == process.vfs_directories.id()
        &&& self.metadata.id() == process.classic_vfs_metadata.id()
        &&& self.locked_files.id() == process.classic_locked_files.id()
        &&& self.next_dir_id.id() == process.next_vfs_dir_id.id()
        &&& self.next_file_id.id() == process.classic_next_vfs_file_id.id()
        &&& self.next_timestamp.id() == process.classic_next_vfs_timestamp.id()
        &&& self.default_dir_id.id() == process.default_dir_id.id()
    }

    /// From `before` to `after` each index has joined the process's.
    pub open spec fn joins(
        &self,
        process: &ProcessFileSystemState,
        before: &FileCells,
        after: &FileCells,
    ) -> bool {
        &&& crate::cells::joined(
            before.directories@,
            after.directories@,
            self.directories.id(),
            process.vfs_directories.id(),
            crate::catalogue::directories_pristine(
                before.directories@[process.vfs_directories.id()]@,
            ),
        )
        &&& crate::cells::joined(
            before.metadata@,
            after.metadata@,
            self.metadata.id(),
            process.classic_vfs_metadata.id(),
            before.metadata@[process.classic_vfs_metadata.id()]@ == Map::<
                Seq<char>,
                ProcessVfsMetadata,
            >::empty(),
        )
        &&& crate::cells::joined(
            before.locked@,
            after.locked@,
            self.locked_files.id(),
            process.classic_locked_files.id(),
            before.locked@[process.classic_locked_files.id()]@ == Set::<Seq<char>>::empty(),
        )
        &&& crate::cells::joined(
            before.next_directories@,
            after.next_directories@,
            self.next_dir_id.id(),
            process.next_vfs_dir_id.id(),
            unused_dir_id(before.next_directories@[process.next_vfs_dir_id.id()]),
        )
        &&& crate::cells::joined(
            before.next_file_ids@,
            after.next_file_ids@,
            self.next_file_id.id(),
            process.classic_next_vfs_file_id.id(),
            before.next_file_ids@[process.classic_next_vfs_file_id.id()] == 32,
        )
        &&& crate::cells::joined(
            before.next_timestamps@,
            after.next_timestamps@,
            self.next_timestamp.id(),
            process.classic_next_vfs_timestamp.id(),
            before.next_timestamps@[process.classic_next_vfs_timestamp.id()] == 1,
        )
        &&& crate::cells::joined(
            before.default_directories@,
            after.default_directories@,
            self.default_dir_id.id(),
            process.default_dir_id.id(),
            unused_default_dir(before.default_directories@[process.default_dir_id.id()]),
        )
    }
}

impl ProcessContext {
    /// Let the fork maps of an adapter join the process's.
    pub fn attach_classic_file_system(
        &self,
        cells: &mut ProcessCells,
        data_forks: &mut SharedProcessValue<ProcessForkMap>,
        resource_forks: &mut SharedProcessValue<ProcessForkMap>,
    )
        requires
            self.valid(old(cells)),
            old(data_forks).valid(old(cells).files.data_maps@),
            old(resource_forks).valid(old(cells).files.resources.maps@),
            crate::cells::attachable(
                old(cells).files.data_maps@,
                old(data_forks).id(),
                self.file_system.state(&old(cells).file_systems).vfs_files.data_forks.id(),
                |value: ProcessForkMap| value@.len() == 0,
            ),
            crate::cells::attachable(
                old(cells).files.resources.maps@,
                old(resource_forks).id(),
                self.file_system.state(&old(cells).file_systems).manager(
                    &old(cells).files,
                ).vfs_resource_files.resource_forks.id(),
                |value: ProcessForkMap| value@.len() == 0,
            ),
        ensures
            ({
                let state = self.file_system.state(&old(cells).file_systems);
                let process_data = state.vfs_files.data_forks.id();
                let process_resources = state.manager(
                    &old(cells).files,
                ).vfs_resource_files.resource_forks.id();
                &&& final(data_forks).id() == process_data
                &&& final(resource_forks).id() == process_resources
                &&& crate::cells::joined(
                    old(cells).files.data_maps@,
                    final(cells).files.data_maps@,
                    old(data_forks).id(),
                    process_data,
                    old(cells).files.data_maps@[process_data]@.len() == 0,
                )
                &&& crate::cells::joined(
                    old(cells).files.resources.maps@,
                    final(cells).files.resources.maps@,
                    old(resource_forks).id(),
                    process_resources,
                    old(cells).files.resources.maps@[process_resources]@.len() == 0,
                )
            }),
            self.valid(final(cells)),
            final(data_forks).valid(final(cells).files.data_maps@),
            final(resource_forks).valid(final(cells).files.resources.maps@),
            *final(cells) == (ProcessCells {
                files: FileCells {
                    data_maps: final(cells).files.data_maps,
                    resources: ResourceCells {
                        maps: final(cells).files.resources.maps,
                        ..old(cells).files.resources
                    },
                    ..old(cells).files
                },
                ..*old(cells)
            }),
    {
        let state = cells.file_systems.get(&self.file_system.cell);
        let is_empty = |forks: &ProcessForkMap| -> (empty: bool)
            ensures
                empty == (forks@.len() == 0),
            { forks.is_empty() };
        data_forks.attach_to(&mut cells.files.data_maps, &state.vfs_files.data_forks, is_empty);
        let manager = cells.files.managers.get(&state.resource_manager.cell);
        let is_empty = |forks: &ProcessForkMap| -> (empty: bool)
            ensures
                empty == (forks@.len() == 0),
            { forks.is_empty() };
        resource_forks.attach_to(
            &mut cells.files.resources.maps,
            &manager.vfs_resource_files.resource_forks,
            is_empty,
        );
        let joined_data = cells.files.data_maps.get(&state.vfs_files.data_forks);
        let joined_resources = cells.files.resources.maps.get(
            &manager.vfs_resource_files.resource_forks,
        );
        proof {
            use_type_invariant(joined_data);
            use_type_invariant(joined_resources);
        }
    }

    /// Let the path indexes of an adapter join the process's. Volumes come
    /// with the adapter's file system handle.
    pub fn attach_classic_vfs_catalogue(
        &self,
        cells: &mut ProcessCells,
        adapter: &mut ClassicCatalogue,
    )
        requires
            self.valid(old(cells)),
            old(adapter).valid(&old(cells).files),
            old(adapter).can_join(
                &self.file_system.state(&old(cells).file_systems),
                &old(cells).files,
            ),
        ensures
            final(adapter).shares(&self.file_system.state(&old(cells).file_systems)),
            old(adapter).joins(
                &self.file_system.state(&old(cells).file_systems),
                &old(cells).files,
                &final(cells).files,
            ),
            self.valid(final(cells)),
            final(adapter).valid(&final(cells).files),
            *final(cells) == (ProcessCells {
                files: FileCells {
                    directories: final(cells).files.directories,
                    metadata: final(cells).files.metadata,
                    locked: final(cells).files.locked,
                    next_directories: final(cells).files.next_directories,
                    next_file_ids: final(cells).files.next_file_ids,
                    next_timestamps: final(cells).files.next_timestamps,
                    default_directories: final(cells).files.default_directories,
                    ..old(cells).files
                },
                ..*old(cells)
            }),
    {
        let state = cells.file_systems.get(&self.file_system.cell);
        let directories_unused = |directories: &Vec<ProcessVfsDirectory>| -> (unused: bool)
            ensures
                unused == crate::catalogue::directories_pristine(directories@),
            { process_vfs_directories_are_pristine(directories) };
        adapter.directories.attach_to(
            &mut cells.files.directories,
            &state.vfs_directories,
            directories_unused,
        );
        let metadata_empty = |metadata: &AssocMap<String, ProcessVfsMetadata>| -> (empty: bool)
            ensures
                empty == (metadata@ == Map::<Seq<char>, ProcessVfsMetadata>::empty()),
            { metadata.is_empty() };
        adapter.metadata.attach_to(
            &mut cells.files.metadata,
            &state.classic_vfs_metadata,
            metadata_empty,
        );
        let locked_empty = |locked: &KeySet<String>| -> (empty: bool)
            ensures
                empty == (locked@ == Set::<Seq<char>>::empty()),
            { locked.is_empty() };
        adapter.locked_files.attach_to(
            &mut cells.files.locked,
            &state.classic_locked_files,
            locked_empty,
        );
        let dir_id_unused = |id: &u32| -> (unused: bool)
            ensures
                unused == unused_dir_id(*id),
            { *id == 0 || *id == 16 || *id == 18 };
        adapter.next_dir_id.attach_to(
            &mut cells.files.next_directories,
            &state.next_vfs_dir_id,
            dir_id_unused,
        );
        let file_id_unused = |id: &u32| -> (unused: bool)
            ensures
                unused == (*id == 32),
            { *id == 32 };
        adapter.next_file_id.attach_to(
            &mut cells.files.next_file_ids,
            &state.classic_next_vfs_file_id,
            file_id_unused,
        );
        let timestamp_unused = |timestamp: &u32| -> (unused: bool)
            ensures
                unused == (*timestamp == 1),
            { *timestamp == 1 };
        adapter.next_timestamp.attach_to(
            &mut cells.files.next_timestamps,
            &state.classic_next_vfs_timestamp,
            timestamp_unused,
        );
        let default_unused = |id: &u32| -> (unused: bool)
            ensures
                unused == unused_default_dir(*id),
            { *id == 0 || *id == 2 };
        adapter.default_dir_id.attach_to(
            &mut cells.files.default_directories,
            &state.default_dir_id,
            default_unused,
        );
    }
}

} // verus!
