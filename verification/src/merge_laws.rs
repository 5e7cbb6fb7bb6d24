//! What stays of two file systems, and of two resource managers, where one
//! takes the other's contents over.

use crate::cells::CellDefault;
use crate::file_system::{FileCells, ProcessFileSystemState};
use crate::resource_manager::{ProcessLoadedResources, ProcessResourceManagerState, ResourceCells};
use vstd::prelude::*;

verus! {

/// The greater and the lesser of two numbers are one of them, and bound both.
pub proof fn greater_and_lesser_bound_both(a: int, b: int)
    ensures
        crate::file_system::greater(a, b) >= a,
        crate::file_system::greater(a, b) >= b,
        crate::file_system::greater(a, b) == a || crate::file_system::greater(a, b) == b,
        crate::file_system::lesser(a, b) <= a,
        crate::file_system::lesser(a, b) <= b,
        crate::file_system::lesser(a, b) == a || crate::file_system::lesser(a, b) == b,
{
}

/// A file is writable after the merge where it was in either file system; the
/// completions of both wait, this one's first; each stream of either is
/// there, this one's where both know it.
pub proof fn merged_access_is_of_either(
    own: ProcessFileSystemState,
    other: ProcessFileSystemState,
    before: FileCells,
    after_own: ProcessFileSystemState,
    after_other: ProcessFileSystemState,
    after: FileCells,
    ref_num: u16,
    stream: u32,
)
    requires
        own.valid(&before),
        other.valid(&before),
        own.can_merge(&other, &before),
        own.merges_access(&other, &before, &after_own, &after_other, &after),
    ensures
        after.writable@[own.writable_refnums.id()]@.contains(ref_num) <==> (
        before.writable@[own.writable_refnums.id()]@.contains(ref_num)
            || before.writable@[other.writable_refnums.id()]@.contains(ref_num)),
        own.pending_completions.id() != other.pending_completions.id() ==> {
            let own_waiting = before.completions@[own.pending_completions.id()]@;
            let other_waiting = before.completions@[other.pending_completions.id()]@;
            let waiting = after.completions@[own.pending_completions.id()]@;
            &&& waiting.len() == own_waiting.len() + other_waiting.len()
            &&& forall|i: int|
                0 <= i < own_waiting.len() ==> #[trigger] waiting[i] == own_waiting[i]
            &&& forall|i: int|
                0 <= i < other_waiting.len() ==> #[trigger] other_waiting[i] == waiting[own_waiting.len()
                    + i]
            &&& after.completions@[other.pending_completions.id()]@.len() == 0
        },
        after_own.stdio_streams@.dom().contains(stream) <==> (own.stdio_streams@.dom().contains(
            stream,
        ) || other.stdio_streams@.dom().contains(stream)),
        own.stdio_streams@.dom().contains(stream) ==> after_own.stdio_streams@[stream]
            == own.stdio_streams@[stream],
        !own.stdio_streams@.dom().contains(stream) && other.stdio_streams@.dom().contains(stream)
            ==> after_own.stdio_streams@[stream] == other.stdio_streams@[stream],
        !after_other.stdio_streams@.dom().contains(stream),
{
}

/// The open files and the working directories of either file system are there
/// after the merge, under their numbers; the next number is past those of
/// both, and the application's directory is this one's where it had one.
pub proof fn merged_directories_in_use_are_of_either(
    own: ProcessFileSystemState,
    other: ProcessFileSystemState,
    before: FileCells,
    after_own: ProcessFileSystemState,
    after_other: ProcessFileSystemState,
    after: FileCells,
    ref_num: i16,
)
    requires
        own.valid(&before),
        other.valid(&before),
        own.can_merge(&other, &before),
        own.merges_access(&other, &before, &after_own, &after_other, &after),
    ensures
        own.files.records(&before.open_files).len() > 0 ==> after_own.files.records(
            &after.open_files,
        ) == own.files.records(&before.open_files),
        other.files.records(&before.open_files).len() > 0 ==> after_own.files.records(
            &after.open_files,
        ) == other.files.records(&before.open_files),
        own.files.records(&before.open_files).len() == 0 ==> after_other.files.records(
            &after.open_files,
        ).len() == 0,
        ({
            let own_known = before.working_directories@[own.working_directories.id()]@;
            let other_known = before.working_directories@[other.working_directories.id()]@;
            let known = after.working_directories@[own.working_directories.id()]@;
            &&& known.dom().contains(ref_num) <==> own_known.dom().contains(ref_num)
                || other_known.dom().contains(ref_num)
            &&& own_known.dom().contains(ref_num) ==> known[ref_num] == own_known[ref_num]
            &&& other_known.dom().contains(ref_num) ==> known[ref_num] == other_known[ref_num]
        }),
        ({
            let own_next = before.next_working_directories@[own.next_working_directory_ref_num.id()];
            let other_next =
                before.next_working_directories@[other.next_working_directory_ref_num.id()];
            let next = after.next_working_directories@[own.next_working_directory_ref_num.id()];
            next >= own_next && next >= other_next && (next == own_next || next == other_next)
        }),
        ({
            let own_application =
                before.application_directories@[own.application_working_directory_ref_num.id()];
            let other_application =
                before.application_directories@[other.application_working_directory_ref_num.id()];
            let application =
                after.application_directories@[own.application_working_directory_ref_num.id()];
            &&& own_application != -1 ==> application == own_application
            &&& own_application == -1 ==> application == other_application
        }),
{
}

/// After the merge the next volume and directory numbers are past those of
/// both file systems, and the default directory is this one's where it is
/// set, unless only the other has a catalogue.
pub proof fn merged_numbers_are_past_both(
    own: ProcessFileSystemState,
    other: ProcessFileSystemState,
    before: FileCells,
    after: FileCells,
)
    requires
        own.valid(&before),
        other.valid(&before),
        own.merges_directories(&other, &before, &after),
    ensures
        ({
            let own_next = before.next_volumes@[own.next_vfs_volume_ref_num.id()];
            let other_next = before.next_volumes@[other.next_vfs_volume_ref_num.id()];
            let next = after.next_volumes@[own.next_vfs_volume_ref_num.id()];
            next <= own_next && next <= other_next && (next == own_next || next == other_next)
        }),
        ({
            let own_next = before.next_directories@[own.next_vfs_dir_id.id()];
            let other_next = before.next_directories@[other.next_vfs_dir_id.id()];
            let next = after.next_directories@[own.next_vfs_dir_id.id()];
            next >= own_next && next >= other_next && (next == own_next || next == other_next)
        }),
        ({
            let own_default = before.default_directories@[own.default_dir_id.id()];
            let other_default = before.default_directories@[other.default_dir_id.id()];
            let default_directory = after.default_directories@[own.default_dir_id.id()];
            let catalogued = before.volumes@[own.vfs_volumes.id()]@.len() > 0
                || before.directories@[own.vfs_directories.id()]@.len() > 3;
            &&& own_default == 0 ==> default_directory == other_default
            &&& own_default != 0 && (catalogued || other_default == 0) ==> default_directory
                == own_default
            &&& own_default != 0 && before.volumes@[own.vfs_volumes.id()]@.len() == 0
                && before.directories@[own.vfs_directories.id()]@.len() == 0 && other_default != 0
                ==> default_directory == other_default
        }),
{
}

/// Each volume and each directory of this catalogue stays at its place in the
/// merge, each of the other is there by its number or its name, and the other
/// catalogue is empty.
pub proof fn merged_catalogue_is_of_either(
    own: ProcessFileSystemState,
    other: ProcessFileSystemState,
    before: FileCells,
    after: FileCells,
    i: int,
)
    requires
        own.valid(&before),
        other.valid(&before),
        own.merges_directories(&other, &before, &after),
        own.vfs_volumes.id() != other.vfs_volumes.id(),
        own.vfs_directories.id() != other.vfs_directories.id(),
    ensures
        0 <= i < before.volumes@[own.vfs_volumes.id()]@.len()
            ==> after.volumes@[own.vfs_volumes.id()]@[i]
            == before.volumes@[own.vfs_volumes.id()]@[i],
        0 <= i < before.directories@[own.vfs_directories.id()]@.len()
            ==> after.directories@[own.vfs_directories.id()]@[i]
            == before.directories@[own.vfs_directories.id()]@[i],
        0 <= i < before.volumes@[other.vfs_volumes.id()]@.len() ==> exists|k: int|
            0 <= k < after.volumes@[own.vfs_volumes.id()]@.len() && ((
            #[trigger] after.volumes@[own.vfs_volumes.id()]@[k]).ref_num
                == before.volumes@[other.vfs_volumes.id()]@[i].ref_num || crate::text::same_name(
                after.volumes@[own.vfs_volumes.id()]@[k].name@,
                before.volumes@[other.vfs_volumes.id()]@[i].name@,
            )),
        0 <= i < before.directories@[other.vfs_directories.id()]@.len() ==> exists|k: int|
            0 <= k < after.directories@[own.vfs_directories.id()]@.len() && ((
            #[trigger] after.directories@[own.vfs_directories.id()]@[k]).dir_id
                == before.directories@[other.vfs_directories.id()]@[i].dir_id
                || crate::text::same_name(
                after.directories@[own.vfs_directories.id()]@[k].path@,
                before.directories@[other.vfs_directories.id()]@[i].path@,
            )),
        after.volumes@[other.vfs_volumes.id()]@.len() == 0,
        after.directories@[other.vfs_directories.id()]@.len() == 0,
{
    let volumes = before.volumes@[own.vfs_volumes.id()]@;
    let directories = before.directories@[own.vfs_directories.id()]@;
    let joined_volumes = after.volumes@[own.vfs_volumes.id()]@;
    let joined_directories = after.directories@[own.vfs_directories.id()]@;
    crate::catalogue_laws::joined_volumes_are_known_once(
        volumes,
        before.volumes@[other.vfs_volumes.id()]@,
    );
    crate::catalogue_laws::joined_directories_are_known_once(
        directories,
        before.directories@[other.vfs_directories.id()]@,
    );
    if 0 <= i < volumes.len() {
        assert(joined_volumes.take(volumes.len() as int)[i] == joined_volumes[i]);
    }
    if 0 <= i < directories.len() {
        assert(joined_directories.take(directories.len() as int)[i] == joined_directories[i]);
    }
}

/// Each path that either file system describes is described after the merge,
/// as this one does where both do; each lock and each deletion of either
/// stays; the next numbers are past those of both.
pub proof fn merged_descriptions_are_of_either(
    own: ProcessFileSystemState,
    other: ProcessFileSystemState,
    before: FileCells,
    after_own: ProcessFileSystemState,
    after_other: ProcessFileSystemState,
    after: FileCells,
    path: Seq<char>,
)
    requires
        own.valid(&before),
        other.valid(&before),
        own.merges_files(&other, &before, &after_own, &after_other, &after),
    ensures
        ({
            let own_known = before.metadata@[own.classic_vfs_metadata.id()]@;
            let other_known = before.metadata@[other.classic_vfs_metadata.id()]@;
            let known = after.metadata@[own.classic_vfs_metadata.id()]@;
            &&& known.dom().contains(path) <==> own_known.dom().contains(path)
                || other_known.dom().contains(path)
            &&& own_known.dom().contains(path) ==> known[path] == own_known[path]
            &&& !own_known.dom().contains(path) && other_known.dom().contains(path) ==> known[path]
                == other_known[path]
        }),
        after.locked@[own.classic_locked_files.id()]@.contains(path) <==> (
        before.locked@[own.classic_locked_files.id()]@.contains(path)
            || before.locked@[other.classic_locked_files.id()]@.contains(path)),
        after_own.next_file_ref_num >= own.next_file_ref_num,
        after_own.next_file_ref_num >= other.next_file_ref_num,
        after_own.next_file_ref_num == own.next_file_ref_num || after_own.next_file_ref_num
            == other.next_file_ref_num,
        ({
            let own_next = before.next_file_ids@[own.classic_next_vfs_file_id.id()];
            let other_next = before.next_file_ids@[other.classic_next_vfs_file_id.id()];
            let next = after.next_file_ids@[own.classic_next_vfs_file_id.id()];
            next >= own_next && next >= other_next && (next == own_next || next == other_next)
        }),
        ({
            let own_next = before.next_timestamps@[own.classic_next_vfs_timestamp.id()];
            let other_next = before.next_timestamps@[other.classic_next_vfs_timestamp.id()];
            let next = after.next_timestamps@[own.classic_next_vfs_timestamp.id()];
            next >= own_next && next >= other_next && (next == own_next || next == other_next)
        }),
        after_other.vfs_files.records@.len() == 0,
        after_other.deleted_vfs_file_paths@.len() == 0,
{
}

/// After the merge both file systems name one resource manager, and the
/// launched application is the one that either of them knew.
pub proof fn merged_file_systems_share_resources(
    own: ProcessFileSystemState,
    other: ProcessFileSystemState,
    before: FileCells,
    after_own: ProcessFileSystemState,
    after_other: ProcessFileSystemState,
    after: FileCells,
)
    requires
        own.merges_resources(&other, &before, &after_own, &after_other, &after),
    ensures
        after_own.resource_manager.id() == after_other.resource_manager.id(),
        after_own.resource_manager.id() == own.resource_manager.id(),
        own.launched_app_path is Some ==> after_own.launched_app_path == own.launched_app_path
            && after_other.launched_app_path == other.launched_app_path,
        own.launched_app_path is None ==> after_own.launched_app_path == other.launched_app_path
            && after_other.launched_app_path is None,
{
}

/// File systems that both have open files, or that were launched for
/// applications of two names, are not merged; nor are those of which neither
/// resource manager is new.
pub proof fn two_file_systems_in_use_are_not_merged(
    own: ProcessFileSystemState,
    other: ProcessFileSystemState,
    cells: FileCells,
)
    ensures
        own.files.records(&cells.open_files).len() > 0 && other.files.records(
            &cells.open_files,
        ).len() > 0 ==> !own.can_merge(&other, &cells),
        own.launched_app_path is Some && other.launched_app_path is Some
            && !crate::text::same_name(
            own.launched_app_path->0@,
            other.launched_app_path->0@,
        ) ==> !own.can_merge(&other, &cells),
        own.resource_manager.id() != other.resource_manager.id() && !own.resource_manager.state(
            &cells.managers,
        ).tables.is_default() && !other.resource_manager.state(&cells.managers).tables.is_default()
            ==> !own.can_merge(&other, &cells),
{
}

/// A file system that has no open files, no launched application, no working
/// directory, and a resource manager that is new, merges with any other.
pub proof fn unused_file_system_is_merged(
    own: ProcessFileSystemState,
    other: ProcessFileSystemState,
    cells: FileCells,
)
    requires
        own.valid(&cells),
        other.valid(&cells),
        other.access_unused(&cells),
        other.launched_app_path is None,
        other.resource_manager.id() != own.resource_manager.id(),
    ensures
        own.can_merge(&other, &cells),
{
    let manager = other.resource_manager.state(&cells.managers);
    let own_manager = own.resource_manager.state(&cells.managers);
    if own_manager.current_resource_file.id() != manager.current_resource_file.id() {
        current_file_follows_a_loaded_chain(
            cells.resources.current_files@,
            own_manager.current_resource_file.id(),
            own_manager.tables.resources,
            manager.current_resource_file.id(),
        );
    }
}

/// A file that is current stays current; where none is, the chain that was
/// loaded tells it. Other cells are left as they are.
pub proof fn current_file_follows_a_loaded_chain(
    current_files: Seq<i16>,
    id: int,
    resources: Option<ProcessLoadedResources>,
    other: int,
)
    requires
        0 <= id < current_files.len(),
        0 <= other < current_files.len(),
        other != id,
    ensures
        current_files[id] != 0 ==> crate::resource_manager::current_published(
            current_files,
            id,
            resources,
        )[id] == current_files[id],
        current_files[id] == 0 && resources is Some
            ==> crate::resource_manager::current_published(current_files, id, resources)[id]
            == resources->0.current_file as i16,
        resources is None ==> crate::resource_manager::current_published(
            current_files,
            id,
            resources,
        )[id] == current_files[id],
        crate::resource_manager::current_published(current_files, id, resources)[other]
            == current_files[other],
{
}

/// Merged resource managers name one current file, one policy and the tables
/// of the one that had any.
pub proof fn merged_resources_are_of_either(
    own: ProcessResourceManagerState,
    other: ProcessResourceManagerState,
    before: ResourceCells,
    after_own: ProcessResourceManagerState,
    after_other: ProcessResourceManagerState,
    after: ResourceCells,
)
    requires
        own.valid(&before),
        other.valid(&before),
        own.can_merge(&other, &before),
        own.merges(&other, &before, &after_own, &after_other, &after),
    ensures
        after_own.current_resource_file.id() == after_other.current_resource_file.id(),
        after_own.policy.id() == after_other.policy.id(),
        !own.tables.is_default() ==> after_own.tables == own.tables,
        !other.tables.is_default() ==> after_own.tables == other.tables,
        !other.tables.is_default() && own.tables.is_default() ==> after_other.tables.is_default(),
        before.current_files@[own.current_resource_file.id()] != 0
            ==> after.current_files@[after_own.current_resource_file.id()]
            == before.current_files@[own.current_resource_file.id()],
        before.current_files@[own.current_resource_file.id()] == 0 && own.tables.resources is None
            && before.current_files@[other.current_resource_file.id()] != 0
            ==> after.current_files@[after_own.current_resource_file.id()]
            == before.current_files@[other.current_resource_file.id()],
        own.policy.id() != other.policy.id() && !own.policy.state(&before.policies).pristine()
            ==> after_own.policy.state(&after.policies) == own.policy.state(&before.policies),
        own.policy.id() != other.policy.id() && !other.policy.state(&before.policies).pristine()
            ==> after_own.policy.state(&after.policies) == other.policy.state(&before.policies),
        after_other.vfs_resources@.len() == 0,
        after_other.vfs_resource_files.records@.len() == 0,
{
}

} // verus!
