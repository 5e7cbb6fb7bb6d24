//! File Manager and Resource Manager storage of one process.

use crate::assoc::{AssocMap, KeySet, MapKey};
use crate::catalogue::{
    join_directories, join_names, join_volumes, process_native_vfs_catalogue_is_pristine,
};
use crate::cells::{CellDefault, CellValue, SharedCells, SharedProcessValue};
use crate::forks::ProcessForkMap;
use crate::open_files::{ProcessOpenFileRecord, SharedProcessOpenFiles};
use crate::resource_manager::{
    ProcessResourceManagerState, ResourceCells, SharedProcessResourceManager,
};
use crate::vfs::{
    ProcessVfsDirectory, ProcessVfsFileRecords, ProcessVfsMetadata, ProcessVfsVolumeRecord,
};
use vstd::prelude::*;

verus! {

/// A completed request whose result is not published yet.
#[derive(Debug, Clone, Copy, PartialEq, Eq, Structural)]
pub struct PendingFileCompletion {
    pub parameter_block: u32,
    pub completion_addr: u32,
    pub result: i16,
}

/// An open working directory.
#[derive(Debug, Clone, Copy, PartialEq, Eq, Structural)]
pub struct ProcessWorkingDirectory {
    pub ref_num: i16,
    pub volume_ref_num: i16,
    pub dir_id: u32,
    pub proc_id: u32,
}

/// A standard input or output stream.
pub struct ProcessStdioStreamRecord {
    pub ref_num: Option<i16>,
    pub path: Option<String>,
    pub position: u32,
    pub standard: bool,
    pub readable: bool,
    pub writable: bool,
    pub append: bool,
    pub closed: bool,
    pub eof: bool,
    pub error: bool,
}

impl CellDefault for PendingFileCompletion {
    open spec fn is_default(&self) -> bool {
        self.parameter_block == 0 && self.completion_addr == 0 && self.result == 0
    }

    fn default_value() -> (value: Self) {
        PendingFileCompletion { parameter_block: 0, completion_addr: 0, result: 0 }
    }
}

impl CellValue for PendingFileCompletion {
    open spec fn same(&self, other: &Self) -> bool {
        *self == *other
    }

    fn copy_value(&self) -> (copy: Self) {
        *self
    }
}

impl CellDefault for ProcessWorkingDirectory {
    open spec fn is_default(&self) -> bool {
        self.ref_num == 0 && self.volume_ref_num == 0 && self.dir_id == 0 && self.proc_id == 0
    }

    fn default_value() -> (value: Self) {
        ProcessWorkingDirectory { ref_num: 0, volume_ref_num: 0, dir_id: 0, proc_id: 0 }
    }
}

impl CellValue for ProcessWorkingDirectory {
    open spec fn same(&self, other: &Self) -> bool {
        *self == *other
    }

    fn copy_value(&self) -> (copy: Self) {
        *self
    }
}

/// The cells that file systems use.
pub struct FileCells {
    pub resources: ResourceCells,
    pub managers: SharedCells<ProcessResourceManagerState>,
    pub data_maps: SharedCells<ProcessForkMap>,
    pub open_files: SharedCells<Vec<ProcessOpenFileRecord>>,
    pub writable: SharedCells<KeySet<u16>>,
    pub completions: SharedCells<Vec<PendingFileCompletion>>,
    pub working_directories: SharedCells<AssocMap<i16, ProcessWorkingDirectory>>,
    pub next_working_directories: SharedCells<i16>,
    pub application_directories: SharedCells<i16>,
    pub volumes: SharedCells<Vec<ProcessVfsVolumeRecord>>,
    pub next_volumes: SharedCells<i16>,
    pub directories: SharedCells<Vec<ProcessVfsDirectory>>,
    pub next_directories: SharedCells<u32>,
    pub default_directories: SharedCells<u32>,
    pub metadata: SharedCells<AssocMap<String, ProcessVfsMetadata>>,
    pub locked: SharedCells<KeySet<String>>,
    pub next_file_ids: SharedCells<u32>,
    pub next_timestamps: SharedCells<u32>,
}

/// File Manager and Resource Manager records of one process.
pub struct ProcessFileSystemState {
    pub files: SharedProcessOpenFiles,
    /// Access paths with write permission.
    pub writable_refnums: SharedProcessValue<KeySet<u16>>,
    /// Completed requests whose results are not published yet.
    pub pending_completions: SharedProcessValue<Vec<PendingFileCompletion>>,
    pub working_directories: SharedProcessValue<AssocMap<i16, ProcessWorkingDirectory>>,
    pub next_working_directory_ref_num: SharedProcessValue<i16>,
    pub application_working_directory_ref_num: SharedProcessValue<i16>,
    pub stdio_streams: AssocMap<u32, ProcessStdioStreamRecord>,
    pub vfs_volumes: SharedProcessValue<Vec<ProcessVfsVolumeRecord>>,
    pub next_vfs_volume_ref_num: SharedProcessValue<i16>,
    pub vfs_directories: SharedProcessValue<Vec<ProcessVfsDirectory>>,
    pub next_vfs_dir_id: SharedProcessValue<u32>,
    pub default_dir_id: SharedProcessValue<u32>,
    pub classic_vfs_metadata: SharedProcessValue<AssocMap<String, ProcessVfsMetadata>>,
    pub classic_locked_files: SharedProcessValue<KeySet<String>>,
    pub classic_next_vfs_file_id: SharedProcessValue<u32>,
    pub classic_next_vfs_timestamp: SharedProcessValue<u32>,
    pub vfs_files: ProcessVfsFileRecords,
    pub deleted_vfs_file_paths: Vec<String>,
    /// Path of the launched application.
    pub launched_app_path: Option<String>,
    pub resource_manager: SharedProcessResourceManager,
    pub next_file_ref_num: i16,
}

impl FileCells {
    /// No store holds a cell.
    pub open spec fn without_cells(&self) -> bool {
        &&& self.resources.without_cells()
        &&& self.managers@.len() == 0
        &&& self.data_maps@.len() == 0
        &&& self.open_files@.len() == 0
        &&& self.writable@.len() == 0
        &&& self.completions@.len() == 0
        &&& self.working_directories@.len() == 0
        &&& self.next_working_directories@.len() == 0
        &&& self.application_directories@.len() == 0
        &&& self.volumes@.len() == 0
        &&& self.next_volumes@.len() == 0
        &&& self.directories@.len() == 0
        &&& self.next_directories@.len() == 0
        &&& self.default_directories@.len() == 0
        &&& self.metadata@.len() == 0
        &&& self.locked@.len() == 0
        &&& self.next_file_ids@.len() == 0
        &&& self.next_timestamps@.len() == 0
    }

    /// Stores without cells.
    pub fn new() -> (cells: Self)
        ensures
            cells.without_cells(),
    {
        FileCells {
            resources: ResourceCells::new(),
            managers: SharedCells::new(),
            data_maps: SharedCells::new(),
            open_files: SharedCells::new(),
            writable: SharedCells::new(),
            completions: SharedCells::new(),
            working_directories: SharedCells::new(),
            next_working_directories: SharedCells::new(),
            application_directories: SharedCells::new(),
            volumes: SharedCells::new(),
            next_volumes: SharedCells::new(),
            directories: SharedCells::new(),
            next_directories: SharedCells::new(),
            default_directories: SharedCells::new(),
            metadata: SharedCells::new(),
            locked: SharedCells::new(),
            next_file_ids: SharedCells::new(),
            next_timestamps: SharedCells::new(),
        }
    }
}

/// The contents of one cell moved into another; the rest stays. Nothing moves
/// between a cell and itself.
pub open spec fn moved_into<T: CellDefault>(before: Seq<T>, after: Seq<T>, source: int, target: int) -> bool {
    &&& after.len() == before.len()
    &&& source == target ==> after == before
    &&& source != target ==> after[source].is_default()
    &&& forall|other: int|
        0 <= other < before.len() && other != source && other != target ==> #[trigger] after[other]
            == before[other]
}

fn join_sets<K: MapKey>(
    cells: &mut SharedCells<KeySet<K>>,
    target: &SharedProcessValue<KeySet<K>>,
    source: &SharedProcessValue<KeySet<K>>,
)
    requires
        target.valid(old(cells)@),
        source.valid(old(cells)@),
    ensures
        moved_into(old(cells)@, final(cells)@, source.id(), target.id()),
        final(cells)@[target.id()]@ == old(cells)@[target.id()]@.union(old(cells)@[source.id()]@),
{
    if target.ptr_eq(source) {
        assert(cells@[target.id()]@.union(cells@[source.id()]@) =~= cells@[target.id()]@);
        return;
    }
    let mut moved = source.take(cells);
    cells.get_mut(target).absorb(&mut moved);
}

/// The entries of the target win.
fn join_entries<K: MapKey, V: CellValue>(
    cells: &mut SharedCells<AssocMap<K, V>>,
    target: &SharedProcessValue<AssocMap<K, V>>,
    source: &SharedProcessValue<AssocMap<K, V>>,
)
    requires
        target.valid(old(cells)@),
        source.valid(old(cells)@),
    ensures
        moved_into(old(cells)@, final(cells)@, source.id(), target.id()),
        final(cells)@[target.id()]@ == old(cells)@[source.id()]@.union_prefer_right(
            old(cells)@[target.id()]@,
        ),
{
    if target.ptr_eq(source) {
        assert(cells@[source.id()]@.union_prefer_right(cells@[target.id()]@) =~= cells@[target.id()]@);
        return;
    }
    let mut merged = source.take(cells);
    let mut own = target.take(cells);
    merged.absorb(&mut own);
    cells.set(target, merged);
}

fn raise_number(
    cells: &mut SharedCells<i16>,
    target: &SharedProcessValue<i16>,
    source: &SharedProcessValue<i16>,
)
    requires
        target.valid(old(cells)@),
        source.valid(old(cells)@),
    ensures
        final(cells)@ == old(cells)@.update(
            target.id(),
            greater(old(cells)@[target.id()] as int, old(cells)@[source.id()] as int) as i16,
        ),
{
    let own: i16 = *cells.get(target);
    let other: i16 = *cells.get(source);
    cells.set(
        target,
        if own >= other {
            own
        } else {
            other
        },
    );
}

fn lower_number(
    cells: &mut SharedCells<i16>,
    target: &SharedProcessValue<i16>,
    source: &SharedProcessValue<i16>,
)
    requires
        target.valid(old(cells)@),
        source.valid(old(cells)@),
    ensures
        final(cells)@ == old(cells)@.update(
            target.id(),
            lesser(old(cells)@[target.id()] as int, old(cells)@[source.id()] as int) as i16,
        ),
{
    let own: i16 = *cells.get(target);
    let other: i16 = *cells.get(source);
    cells.set(
        target,
        if own <= other {
            own
        } else {
            other
        },
    );
}

fn raise_counter(
    cells: &mut SharedCells<u32>,
    target: &SharedProcessValue<u32>,
    source: &SharedProcessValue<u32>,
)
    requires
        target.valid(old(cells)@),
        source.valid(old(cells)@),
    ensures
        final(cells)@ == old(cells)@.update(
            target.id(),
            greater(old(cells)@[target.id()] as int, old(cells)@[source.id()] as int) as u32,
        ),
{
    let own: u32 = *cells.get(target);
    let other: u32 = *cells.get(source);
    cells.set(
        target,
        if own >= other {
            own
        } else {
            other
        },
    );
}

pub open spec fn greater(a: int, b: int) -> int {
    if a >= b {
        a
    } else {
        b
    }
}

pub open spec fn lesser(a: int, b: int) -> int {
    if a <= b {
        a
    } else {
        b
    }
}

impl ProcessFileSystemState {
    /// The file system's cells exist.
    pub open spec fn valid(&self, cells: &FileCells) -> bool {
        &&& self.files.valid(&cells.open_files)
        &&& self.writable_refnums.valid(cells.writable@)
        &&& self.pending_completions.valid(cells.completions@)
        &&& self.working_directories.valid(cells.working_directories@)
        &&& self.next_working_directory_ref_num.valid(cells.next_working_directories@)
        &&& self.application_working_directory_ref_num.valid(cells.application_directories@)
        &&& self.vfs_volumes.valid(cells.volumes@)
        &&& self.next_vfs_volume_ref_num.valid(cells.next_volumes@)
        &&& self.vfs_directories.valid(cells.directories@)
        &&& self.next_vfs_dir_id.valid(cells.next_directories@)
        &&& self.default_dir_id.valid(cells.default_directories@)
        &&& self.classic_vfs_metadata.valid(cells.metadata@)
        &&& self.classic_locked_files.valid(cells.locked@)
        &&& self.classic_next_vfs_file_id.valid(cells.next_file_ids@)
        &&& self.classic_next_vfs_timestamp.valid(cells.next_timestamps@)
        &&& self.vfs_files.valid(&cells.data_maps)
        &&& self.resource_manager.valid(&cells.managers, &cells.resources)
    }

    /// The same handles, but for the open files.
    pub open spec fn same_cells(&self, other: &Self) -> bool {
        &&& self.writable_refnums.id() == other.writable_refnums.id()
        &&& self.pending_completions.id() == other.pending_completions.id()
        &&& self.working_directories.id() == other.working_directories.id()
        &&& self.next_working_directory_ref_num.id() == other.next_working_directory_ref_num.id()
        &&& self.application_working_directory_ref_num.id()
            == other.application_working_directory_ref_num.id()
        &&& self.vfs_volumes.id() == other.vfs_volumes.id()
        &&& self.next_vfs_volume_ref_num.id() == other.next_vfs_volume_ref_num.id()
        &&& self.vfs_directories.id() == other.vfs_directories.id()
        &&& self.next_vfs_dir_id.id() == other.next_vfs_dir_id.id()
        &&& self.default_dir_id.id() == other.default_dir_id.id()
        &&& self.classic_vfs_metadata.id() == other.classic_vfs_metadata.id()
        &&& self.classic_locked_files.id() == other.classic_locked_files.id()
        &&& self.classic_next_vfs_file_id.id() == other.classic_next_vfs_file_id.id()
        &&& self.classic_next_vfs_timestamp.id() == other.classic_next_vfs_timestamp.id()
        &&& self.vfs_files.data_forks.id() == other.vfs_files.data_forks.id()
    }

    /// No file is open, no request, stream or deletion is pending, and no
    /// resource is in use.
    pub open spec fn access_unused(&self, cells: &FileCells) -> bool {
        let manager = self.resource_manager.state(&cells.managers);
        &&& self.files.records(&cells.open_files).len() == 0
        &&& cells.writable@[self.writable_refnums.id()]@ == Set::<u16>::empty()
        &&& cells.completions@[self.pending_completions.id()]@.len() == 0
        &&& cells.working_directories@[self.working_directories.id()]@ == Map::<
            i16,
            ProcessWorkingDirectory,
        >::empty()
        &&& cells.next_working_directories@[self.next_working_directory_ref_num.id()] == 32
        &&& cells.application_directories@[self.application_working_directory_ref_num.id()] == -1
        &&& self.stdio_streams@ == Map::<u32, ProcessStdioStreamRecord>::empty()
        &&& self.deleted_vfs_file_paths@.len() == 0
        &&& self.next_file_ref_num == 128
        &&& manager.tables.is_default()
        &&& cells.resources.current_files@[manager.current_resource_file.id()] == 0
        &&& manager.policy.state(&cells.resources.policies).pristine()
        &&& manager.vfs_resources@.len() == 0
    }

    /// Nothing has happened in the file system.
    pub open spec fn unused(&self, cells: &FileCells) -> bool {
        let manager = self.resource_manager.state(&cells.managers);
        &&& self.access_unused(cells)
        &&& cells.volumes@[self.vfs_volumes.id()]@.len() == 0
        &&& cells.next_volumes@[self.next_vfs_volume_ref_num.id()] == -2
        &&& cells.directories@[self.vfs_directories.id()]@.len() == 0
        &&& cells.next_directories@[self.next_vfs_dir_id.id()] == 0
        &&& cells.default_directories@[self.default_dir_id.id()] == 0
        &&& cells.metadata@[self.classic_vfs_metadata.id()]@ == Map::<
            Seq<char>,
            ProcessVfsMetadata,
        >::empty()
        &&& cells.locked@[self.classic_locked_files.id()]@ == Set::<Seq<char>>::empty()
        &&& cells.next_file_ids@[self.classic_next_vfs_file_id.id()] == 32
        &&& cells.next_timestamps@[self.classic_next_vfs_timestamp.id()] == 1
        &&& self.vfs_files.records@.len() == 0
        &&& cells.data_maps@[self.vfs_files.data_forks.id()]@.len() == 0
        &&& self.launched_app_path is None
        &&& manager.vfs_resource_files.records@.len() == 0
        &&& cells.resources.maps@[manager.vfs_resource_files.resource_forks.id()]@.len() == 0
    }

    /// The file system of a new process, with cells of its own.
    pub fn new(cells: &mut FileCells) -> (state: Self)
        ensures
            state.valid(final(cells)),
            state.unused(final(cells)),
            state.forks_exist(final(cells)),
            old(cells).extended_by(final(cells)),
            final(cells).resources.forks@ == old(cells).resources.forks@,
            state.is_new(old(cells)),
            state.resource_manager.state(&final(cells).managers).is_new(&old(cells).resources),
    {
        let manager = ProcessResourceManagerState::new(&mut cells.resources);
        ProcessFileSystemState {
            files: SharedProcessOpenFiles::from_records(&mut cells.open_files, Vec::new()),
            writable_refnums: cells.writable.allocate(KeySet::new()),
            pending_completions: cells.completions.allocate(Vec::new()),
            working_directories: cells.working_directories.allocate(AssocMap::new()),
            next_working_directory_ref_num: cells.next_working_directories.allocate(32),
            application_working_directory_ref_num: cells.application_directories.allocate(-1),
            stdio_streams: AssocMap::new(),
            vfs_volumes: cells.volumes.allocate(Vec::new()),
            next_vfs_volume_ref_num: cells.next_volumes.allocate(-2),
            vfs_directories: cells.directories.allocate(Vec::new()),
            next_vfs_dir_id: cells.next_directories.allocate(0),
            default_dir_id: cells.default_directories.allocate(0),
            classic_vfs_metadata: cells.metadata.allocate(AssocMap::new()),
            classic_locked_files: cells.locked.allocate(KeySet::new()),
            classic_next_vfs_file_id: cells.next_file_ids.allocate(32),
            classic_next_vfs_timestamp: cells.next_timestamps.allocate(1),
            vfs_files: ProcessVfsFileRecords::new(&mut cells.data_maps),
            deleted_vfs_file_paths: Vec::new(),
            launched_app_path: None,
            resource_manager: SharedProcessResourceManager::from_value(
                &mut cells.managers,
                manager,
            ),
            next_file_ref_num: 128,
        }
    }

    /// None of the handles names a cell of `cells`.
    pub open spec fn is_new(&self, cells: &FileCells) -> bool {
        &&& self.files.cell.id() >= cells.open_files@.len()
        &&& self.writable_refnums.id() >= cells.writable@.len()
        &&& self.pending_completions.id() >= cells.completions@.len()
        &&& self.working_directories.id() >= cells.working_directories@.len()
        &&& self.next_working_directory_ref_num.id() >= cells.next_working_directories@.len()
        &&& self.application_working_directory_ref_num.id() >= cells.application_directories@.len()
        &&& self.vfs_volumes.id() >= cells.volumes@.len()
        &&& self.next_vfs_volume_ref_num.id() >= cells.next_volumes@.len()
        &&& self.vfs_directories.id() >= cells.directories@.len()
        &&& self.next_vfs_dir_id.id() >= cells.next_directories@.len()
        &&& self.default_dir_id.id() >= cells.default_directories@.len()
        &&& self.classic_vfs_metadata.id() >= cells.metadata@.len()
        &&& self.classic_locked_files.id() >= cells.locked@.len()
        &&& self.classic_next_vfs_file_id.id() >= cells.next_file_ids@.len()
        &&& self.classic_next_vfs_timestamp.id() >= cells.next_timestamps@.len()
        &&& self.vfs_files.data_forks.id() >= cells.data_maps@.len()
        &&& self.resource_manager.id() >= cells.managers@.len()
    }

    /// Whether another file system's records can join this one's: at most one
    /// has open files, and applications, working directories and resources in
    /// use do not contradict each other.
    pub open spec fn can_merge(&self, source: &Self, cells: &FileCells) -> bool {
        let own_directories = cells.working_directories@[self.working_directories.id()]@;
        let other_directories = cells.working_directories@[source.working_directories.id()]@;
        &&& self.files.records(&cells.open_files).len() == 0 || source.files.records(
            &cells.open_files,
        ).len() == 0
        &&& match (self.launched_app_path, source.launched_app_path) {
            (Some(own), Some(other)) => crate::text::same_name(own@, other@),
            _ => true,
        }
        &&& own_directories == other_directories || own_directories == Map::<
            i16,
            ProcessWorkingDirectory,
        >::empty() || other_directories == Map::<i16, ProcessWorkingDirectory>::empty()
        &&& self.resource_manager.id() != source.resource_manager.id()
            ==> self.resource_manager.state(&cells.managers).can_merge(
            &source.resource_manager.state(&cells.managers),
            &cells.resources,
        )
    }

    /// What merging does to open files, streams and working directories.
    pub open spec fn merges_access(
        &self,
        source: &Self,
        before: &FileCells,
        after_self: &Self,
        after_source: &Self,
        after: &FileCells,
    ) -> bool {
        let own_directories = before.working_directories@[self.working_directories.id()]@;
        let own_application =
            before.application_directories@[self.application_working_directory_ref_num.id()];
        &&& if self.files.records(&before.open_files).len() == 0 {
            &&& after_self.files.cell.id() == source.files.cell.id()
            &&& after_source.files.cell.id() == before.open_files@.len()
            &&& after.open_files@.len() == before.open_files@.len() + 1
            &&& after.open_files@.last()@.len() == 0
            &&& crate::cells::cells_extend(before.open_files@, after.open_files@)
        } else {
            &&& after_self.files.cell.id() == self.files.cell.id()
            &&& after_source.files.cell.id() == source.files.cell.id()
            &&& after.open_files@ == before.open_files@
        }
        &&& moved_into(
            before.writable@,
            after.writable@,
            source.writable_refnums.id(),
            self.writable_refnums.id(),
        )
        &&& after.writable@[self.writable_refnums.id()]@
            == before.writable@[self.writable_refnums.id()]@.union(
            before.writable@[source.writable_refnums.id()]@,
        )
        &&& moved_into(
            before.completions@,
            after.completions@,
            source.pending_completions.id(),
            self.pending_completions.id(),
        )
        &&& source.pending_completions.id() != self.pending_completions.id()
            ==> after.completions@[self.pending_completions.id()]@
            == before.completions@[self.pending_completions.id()]@
            + before.completions@[source.pending_completions.id()]@
        &&& if source.working_directories.id() != self.working_directories.id() && own_directories
            == Map::<i16, ProcessWorkingDirectory>::empty() {
            &&& moved_into(
                before.working_directories@,
                after.working_directories@,
                source.working_directories.id(),
                self.working_directories.id(),
            )
            &&& after.working_directories@[self.working_directories.id()]
                == before.working_directories@[source.working_directories.id()]
        } else {
            after.working_directories@ == before.working_directories@
        }
        &&& after.next_working_directories@ == before.next_working_directories@.update(
            self.next_working_directory_ref_num.id(),
            greater(
                before.next_working_directories@[self.next_working_directory_ref_num.id()] as int,
                before.next_working_directories@[source.next_working_directory_ref_num.id()] as int,
            ) as i16,
        )
        &&& after.application_directories@ == if own_application == -1 {
            before.application_directories@.update(
                self.application_working_directory_ref_num.id(),
                before.application_directories@[source.application_working_directory_ref_num.id()],
            )
        } else {
            before.application_directories@
        }
        &&& after_self.stdio_streams@ == source.stdio_streams@.union_prefer_right(
            self.stdio_streams@,
        )
        &&& after_source.stdio_streams@ == Map::<u32, ProcessStdioStreamRecord>::empty()
    }

    /// What merging does to volumes and directories.
    pub open spec fn merges_directories(
        &self,
        source: &Self,
        before: &FileCells,
        after: &FileCells,
    ) -> bool {
        let own_volumes = before.volumes@[self.vfs_volumes.id()]@;
        let own_directories = before.directories@[self.vfs_directories.id()]@;
        let own_default = before.default_directories@[self.default_dir_id.id()];
        let other_default = before.default_directories@[source.default_dir_id.id()];
        &&& moved_into(
            before.volumes@,
            after.volumes@,
            source.vfs_volumes.id(),
            self.vfs_volumes.id(),
        )
        &&& source.vfs_volumes.id() != self.vfs_volumes.id()
            ==> after.volumes@[self.vfs_volumes.id()]@ == crate::catalogue::volumes_joined(
            own_volumes,
            before.volumes@[source.vfs_volumes.id()]@,
        )
        &&& after.next_volumes@ == before.next_volumes@.update(
            self.next_vfs_volume_ref_num.id(),
            lesser(
                before.next_volumes@[self.next_vfs_volume_ref_num.id()] as int,
                before.next_volumes@[source.next_vfs_volume_ref_num.id()] as int,
            ) as i16,
        )
        &&& moved_into(
            before.directories@,
            after.directories@,
            source.vfs_directories.id(),
            self.vfs_directories.id(),
        )
        &&& source.vfs_directories.id() != self.vfs_directories.id()
            ==> after.directories@[self.vfs_directories.id()]@ == crate::catalogue::directories_joined(
            own_directories,
            before.directories@[source.vfs_directories.id()]@,
        )
        &&& after.next_directories@ == before.next_directories@.update(
            self.next_vfs_dir_id.id(),
            greater(
                before.next_directories@[self.next_vfs_dir_id.id()] as int,
                before.next_directories@[source.next_vfs_dir_id.id()] as int,
            ) as u32,
        )
        &&& after.default_directories@ == if own_default == 0 || (own_volumes.len() == 0
            && crate::catalogue::directories_pristine(own_directories) && other_default != 0) {
            before.default_directories@.update(self.default_dir_id.id(), other_default)
        } else {
            before.default_directories@
        }
    }

    /// What merging does to files and their catalogue information.
    pub open spec fn merges_files(
        &self,
        source: &Self,
        before: &FileCells,
        after_self: &Self,
        after_source: &Self,
        after: &FileCells,
    ) -> bool {
        let joined = self.vfs_files.index(&before.data_maps).joined(source.vfs_files.records@);
        let own_map = self.vfs_files.data_forks.id();
        let other_map = source.vfs_files.data_forks.id();
        &&& after_self.vfs_files.records@ == joined.records
        &&& after_source.vfs_files.records@.len() == 0
        &&& after.data_maps@.len() == before.data_maps@.len()
        &&& after.data_maps@[own_map]@ == if own_map == other_map {
            crate::forks::forks_merged(Seq::empty(), joined.forks)
        } else {
            crate::forks::forks_merged(joined.forks, before.data_maps@[other_map]@)
        }
        &&& own_map != other_map ==> after.data_maps@[other_map]@ == Seq::<
            (Seq<char>, int),
        >::empty()
        &&& forall|i: int|
            0 <= i < before.data_maps@.len() && i != own_map && i != other_map
                ==> #[trigger] after.data_maps@[i] == before.data_maps@[i]
        &&& after_self.deleted_vfs_file_paths@ == crate::catalogue::names_joined(
            self.deleted_vfs_file_paths@,
            source.deleted_vfs_file_paths@,
        )
        &&& after_source.deleted_vfs_file_paths@.len() == 0
        &&& after_self.next_file_ref_num == greater(
            self.next_file_ref_num as int,
            source.next_file_ref_num as int,
        )
        &&& after_source.next_file_ref_num == source.next_file_ref_num
        &&& moved_into(
            before.metadata@,
            after.metadata@,
            source.classic_vfs_metadata.id(),
            self.classic_vfs_metadata.id(),
        )
        &&& after.metadata@[self.classic_vfs_metadata.id()]@
            == before.metadata@[source.classic_vfs_metadata.id()]@.union_prefer_right(
            before.metadata@[self.classic_vfs_metadata.id()]@,
        )
        &&& moved_into(
            before.locked@,
            after.locked@,
            source.classic_locked_files.id(),
            self.classic_locked_files.id(),
        )
        &&& after.locked@[self.classic_locked_files.id()]@
            == before.locked@[self.classic_locked_files.id()]@.union(
            before.locked@[source.classic_locked_files.id()]@,
        )
        &&& after.next_file_ids@ == before.next_file_ids@.update(
            self.classic_next_vfs_file_id.id(),
            greater(
                before.next_file_ids@[self.classic_next_vfs_file_id.id()] as int,
                before.next_file_ids@[source.classic_next_vfs_file_id.id()] as int,
            ) as u32,
        )
        &&& after.next_timestamps@ == before.next_timestamps@.update(
            self.classic_next_vfs_timestamp.id(),
            greater(
                before.next_timestamps@[self.classic_next_vfs_timestamp.id()] as int,
                before.next_timestamps@[source.classic_next_vfs_timestamp.id()] as int,
            ) as u32,
        )
    }

    /// What merging does to the launched application and the Resource
    /// Manager.
    pub open spec fn merges_resources(
        &self,
        source: &Self,
        before: &FileCells,
        after_self: &Self,
        after_source: &Self,
        after: &FileCells,
    ) -> bool {
        let own = self.resource_manager;
        let other = source.resource_manager;
        &&& after_self.launched_app_path == if self.launched_app_path is None {
            source.launched_app_path
        } else {
            self.launched_app_path
        }
        &&& after_source.launched_app_path == if self.launched_app_path is None {
            None
        } else {
            source.launched_app_path
        }
        &&& after_self.resource_manager.id() == own.id()
        &&& after_source.resource_manager.id() == own.id()
        &&& after.managers@.len() == before.managers@.len()
        &&& if own.id() == other.id() {
            after.managers@ == before.managers@ && after.resources == before.resources
        } else {
            &&& own.state(&before.managers).merges(
                &other.state(&before.managers),
                &before.resources,
                &own.state(&after.managers),
                &other.state(&after.managers),
                &after.resources,
            )
            &&& forall|i: int|
                0 <= i < before.managers@.len() && i != own.id() && i != other.id()
                    ==> #[trigger] after.managers@[i] == before.managers@[i]
        }
    }

    /// Take another file system's records over.
    pub fn merge_from(&mut self, cells: &mut FileCells, source: &mut Self)
        requires
            old(self).valid(old(cells)),
            old(source).valid(old(cells)),
            old(self).can_merge(old(source), old(cells)),
        ensures
            final(self).valid(final(cells)),
            final(source).valid(final(cells)),
            final(self).same_cells(old(self)),
            final(source).same_cells(old(source)),
            old(self).merges_access(
                old(source),
                old(cells),
                final(self),
                final(source),
                final(cells),
            ),
            old(self).merges_directories(old(source), old(cells), final(cells)),
            old(self).merges_files(
                old(source),
                old(cells),
                final(self),
                final(source),
                final(cells),
            ),
            old(self).merges_resources(
                old(source),
                old(cells),
                final(self),
                final(source),
                final(cells),
            ),
    {
        self.merge_access(cells, source);
        self.merge_directories(cells, source);
        self.merge_files(cells, source);
        if self.launched_app_path.is_none() {
            let mut path: Option<String> = None;
            core::mem::swap(&mut path, &mut source.launched_app_path);
            self.launched_app_path = path;
        }
        source.resource_manager.attach_to(
            &mut cells.managers,
            &mut cells.resources,
            &self.resource_manager,
        );
    }

    fn merge_access(&mut self, cells: &mut FileCells, source: &mut Self)
        requires
            old(self).valid(old(cells)),
            old(source).valid(old(cells)),
            old(self).can_merge(old(source), old(cells)),
        ensures
            *final(self) == (ProcessFileSystemState {
                files: final(self).files,
                stdio_streams: final(self).stdio_streams,
                ..*old(self)
            }),
            *final(source) == (ProcessFileSystemState {
                files: final(source).files,
                stdio_streams: final(source).stdio_streams,
                ..*old(source)
            }),
            final(self).valid(final(cells)),
            final(source).valid(final(cells)),
            old(self).merges_access(
                old(source),
                old(cells),
                final(self),
                final(source),
                final(cells),
            ),
            *final(cells) == (FileCells {
                open_files: final(cells).open_files,
                writable: final(cells).writable,
                completions: final(cells).completions,
                working_directories: final(cells).working_directories,
                next_working_directories: final(cells).next_working_directories,
                application_directories: final(cells).application_directories,
                ..*old(cells)
            }),
    {
        if self.files.is_empty(&cells.open_files) {
            self.files = source.files.shared_handle();
            source.files = SharedProcessOpenFiles::from_records(&mut cells.open_files, Vec::new());
        }
        join_sets(&mut cells.writable, &self.writable_refnums, &source.writable_refnums);
        if !self.pending_completions.ptr_eq(&source.pending_completions) {
            let mut moved = source.pending_completions.take(&mut cells.completions);
            cells.completions.get_mut(&self.pending_completions).append(&mut moved);
        }
        if !self.working_directories.ptr_eq(&source.working_directories)
            && cells.working_directories.get(&self.working_directories).is_empty() {
            let moved = source.working_directories.take(&mut cells.working_directories);
            cells.working_directories.set(&self.working_directories, moved);
        }
        raise_number(
            &mut cells.next_working_directories,
            &self.next_working_directory_ref_num,
            &source.next_working_directory_ref_num,
        );
        if *cells.application_directories.get(&self.application_working_directory_ref_num) == -1 {
            let other: i16 = *cells.application_directories.get(
                &source.application_working_directory_ref_num,
            );
            cells.application_directories.set(&self.application_working_directory_ref_num, other);
        }
        let mut own: AssocMap<u32, ProcessStdioStreamRecord> = AssocMap::new();
        let mut merged: AssocMap<u32, ProcessStdioStreamRecord> = AssocMap::new();
        core::mem::swap(&mut own, &mut self.stdio_streams);
        core::mem::swap(&mut merged, &mut source.stdio_streams);
        merged.absorb(&mut own);
        self.stdio_streams = merged;
    }

    fn merge_directories(&self, cells: &mut FileCells, source: &Self)
        requires
            self.valid(old(cells)),
            source.valid(old(cells)),
        ensures
            self.valid(final(cells)),
            source.valid(final(cells)),
            self.merges_directories(source, old(cells), final(cells)),
            *final(cells) == (FileCells {
                volumes: final(cells).volumes,
                next_volumes: final(cells).next_volumes,
                directories: final(cells).directories,
                next_directories: final(cells).next_directories,
                default_directories: final(cells).default_directories,
                ..*old(cells)
            }),
    {
        let pristine = process_native_vfs_catalogue_is_pristine(
            cells.volumes.get(&self.vfs_volumes),
            cells.directories.get(&self.vfs_directories),
        );
        if !self.vfs_volumes.ptr_eq(&source.vfs_volumes) {
            let moved = source.vfs_volumes.take(&mut cells.volumes);
            join_volumes(cells.volumes.get_mut(&self.vfs_volumes), moved);
        }
        lower_number(
            &mut cells.next_volumes,
            &self.next_vfs_volume_ref_num,
            &source.next_vfs_volume_ref_num,
        );
        if !self.vfs_directories.ptr_eq(&source.vfs_directories) {
            let moved = source.vfs_directories.take(&mut cells.directories);
            join_directories(cells.directories.get_mut(&self.vfs_directories), moved);
        }
        raise_counter(&mut cells.next_directories, &self.next_vfs_dir_id, &source.next_vfs_dir_id);
        let other: u32 = *cells.default_directories.get(&source.default_dir_id);
        if *cells.default_directories.get(&self.default_dir_id) == 0 || (pristine && other != 0) {
            cells.default_directories.set(&self.default_dir_id, other);
        }
    }

    fn merge_files(&mut self, cells: &mut FileCells, source: &mut Self)
        requires
            old(self).valid(old(cells)),
            old(source).valid(old(cells)),
        ensures
            *final(self) == (ProcessFileSystemState {
                vfs_files: final(self).vfs_files,
                deleted_vfs_file_paths: final(self).deleted_vfs_file_paths,
                next_file_ref_num: final(self).next_file_ref_num,
                ..*old(self)
            }),
            *final(source) == (ProcessFileSystemState {
                vfs_files: final(source).vfs_files,
                deleted_vfs_file_paths: final(source).deleted_vfs_file_paths,
                ..*old(source)
            }),
            final(self).vfs_files.data_forks.id() == old(self).vfs_files.data_forks.id(),
            final(source).vfs_files.data_forks.id() == old(source).vfs_files.data_forks.id(),
            final(self).valid(final(cells)),
            final(source).valid(final(cells)),
            old(self).merges_files(
                old(source),
                old(cells),
                final(self),
                final(source),
                final(cells),
            ),
            *final(cells) == (FileCells {
                data_maps: final(cells).data_maps,
                metadata: final(cells).metadata,
                locked: final(cells).locked,
                next_file_ids: final(cells).next_file_ids,
                next_timestamps: final(cells).next_timestamps,
                ..*old(cells)
            }),
    {
        self.vfs_files.merge_from(&mut cells.data_maps, &mut source.vfs_files);
        join_names(&mut self.deleted_vfs_file_paths, &mut source.deleted_vfs_file_paths);
        if source.next_file_ref_num > self.next_file_ref_num {
            self.next_file_ref_num = source.next_file_ref_num;
        }
        join_entries(
            &mut cells.metadata,
            &self.classic_vfs_metadata,
            &source.classic_vfs_metadata,
        );
        join_sets(&mut cells.locked, &self.classic_locked_files, &source.classic_locked_files);
        raise_counter(
            &mut cells.next_file_ids,
            &self.classic_next_vfs_file_id,
            &source.classic_next_vfs_file_id,
        );
        raise_counter(
            &mut cells.next_timestamps,
            &self.classic_next_vfs_timestamp,
            &source.classic_next_vfs_timestamp,
        );
    }
}

impl FileCells {
    /// Every cell of `self` is in `after`, unchanged.
    pub open spec fn extended_by(&self, after: &FileCells) -> bool {
        &&& crate::cells::cells_extend(self.resources.current_files@, after.resources.current_files@)
        &&& crate::cells::cells_extend(self.resources.policies@, after.resources.policies@)
        &&& crate::cells::cells_extend(self.resources.maps@, after.resources.maps@)
        &&& crate::cells::cells_extend(self.resources.forks@, after.resources.forks@)
        &&& crate::cells::cells_extend(self.managers@, after.managers@)
        &&& crate::cells::cells_extend(self.data_maps@, after.data_maps@)
        &&& crate::cells::cells_extend(self.open_files@, after.open_files@)
        &&& crate::cells::cells_extend(self.writable@, after.writable@)
        &&& crate::cells::cells_extend(self.completions@, after.completions@)
        &&& crate::cells::cells_extend(self.working_directories@, after.working_directories@)
        &&& crate::cells::cells_extend(self.next_working_directories@, after.next_working_directories@)
        &&& crate::cells::cells_extend(self.application_directories@, after.application_directories@)
        &&& crate::cells::cells_extend(self.volumes@, after.volumes@)
        &&& crate::cells::cells_extend(self.next_volumes@, after.next_volumes@)
        &&& crate::cells::cells_extend(self.directories@, after.directories@)
        &&& crate::cells::cells_extend(self.next_directories@, after.next_directories@)
        &&& crate::cells::cells_extend(self.default_directories@, after.default_directories@)
        &&& crate::cells::cells_extend(self.metadata@, after.metadata@)
        &&& crate::cells::cells_extend(self.locked@, after.locked@)
        &&& crate::cells::cells_extend(self.next_file_ids@, after.next_file_ids@)
        &&& crate::cells::cells_extend(self.next_timestamps@, after.next_timestamps@)
    }
}

} // verus!
