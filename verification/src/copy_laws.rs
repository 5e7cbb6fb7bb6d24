//! What a copy of a file system has from its original, and what a classic
//! catalogue brings into the process that it joins.

use crate::apple_events::{ProcessAeDescriptor, ProcessAppleEventDescriptors};
use crate::cells::CellValue;
use crate::context_files::ClassicCatalogue;
use crate::file_system::{FileCells, ProcessFileSystemState};
use crate::list_manager::ProcessListRecord;
use crate::resource_manager::{ProcessResourceTables, ProcessVfsResourceRecord};
use crate::scrap::ProcessScrapState;
use vstd::prelude::*;

verus! {

/// A copy describes each path, locks each file and lists each volume and
/// directory as its original does, and counts on from the same numbers.
pub proof fn copied_catalogue_answers_alike(
    original: ProcessFileSystemState,
    before: FileCells,
    copy: ProcessFileSystemState,
    after: FileCells,
    path: Seq<char>,
    i: int,
)
    requires
        original.catalogue_copied(&before, &copy, &after),
    ensures
        ({
            let known = before.metadata@[original.classic_vfs_metadata.id()]@;
            let copied = after.metadata@[copy.classic_vfs_metadata.id()]@;
            &&& copied.dom().contains(path) <==> known.dom().contains(path)
            &&& known.dom().contains(path) ==> copied[path] == known[path]
        }),
        after.locked@[copy.classic_locked_files.id()]@.contains(path)
            <==> before.locked@[original.classic_locked_files.id()]@.contains(path),
        ({
            let volumes = before.volumes@[original.vfs_volumes.id()]@;
            let copied = after.volumes@[copy.vfs_volumes.id()]@;
            &&& copied.len() == volumes.len()
            &&& 0 <= i < volumes.len() ==> copied[i] == volumes[i]
        }),
        ({
            let directories = before.directories@[original.vfs_directories.id()]@;
            let copied = after.directories@[copy.vfs_directories.id()]@;
            &&& copied.len() == directories.len()
            &&& 0 <= i < directories.len() ==> copied[i] == directories[i]
        }),
        after.next_volumes@[copy.next_vfs_volume_ref_num.id()]
            == before.next_volumes@[original.next_vfs_volume_ref_num.id()],
        after.next_directories@[copy.next_vfs_dir_id.id()]
            == before.next_directories@[original.next_vfs_dir_id.id()],
        after.default_directories@[copy.default_dir_id.id()]
            == before.default_directories@[original.default_dir_id.id()],
        after.next_file_ids@[copy.classic_next_vfs_file_id.id()]
            == before.next_file_ids@[original.classic_next_vfs_file_id.id()],
        after.next_timestamps@[copy.classic_next_vfs_timestamp.id()]
            == before.next_timestamps@[original.classic_next_vfs_timestamp.id()],
        copy.launched_app_path == original.launched_app_path,
{
    let volumes = before.volumes@[original.vfs_volumes.id()]@;
    let directories = before.directories@[original.vfs_directories.id()]@;
    if 0 <= i < volumes.len() {
        assert(volumes[i].same(&after.volumes@[copy.vfs_volumes.id()]@[i]));
    }
    if 0 <= i < directories.len() {
        assert(directories[i].same(&after.directories@[copy.vfs_directories.id()]@[i]));
    }
}

/// Each file of a copy is its original's under its path, with the same type,
/// creator and flags, and its bytes are the same in a fork of its own.
pub proof fn copied_file_has_its_own_bytes(
    original: ProcessFileSystemState,
    before: FileCells,
    copy: ProcessFileSystemState,
    after: FileCells,
    i: int,
)
    requires
        original.catalogue_copied(&before, &copy, &after),
        0 <= i < original.vfs_files.records@.len(),
    ensures
        copy.vfs_files.records@.len() == original.vfs_files.records@.len(),
        ({
            let file = original.vfs_files.records@[i];
            let copied = copy.vfs_files.records@[i];
            &&& copied.path@ == file.path@
            &&& copied.creator == file.creator
            &&& copied.file_type == file.file_type
            &&& copied.finder_flags == file.finder_flags
            &&& copied.dirty == file.dirty
            &&& copied.data.id() >= before.resources.forks@.len()
            &&& after.resources.forks@[copied.data.id()]@
                == before.resources.forks@[file.data.id()]@
        }),
{
    assert(crate::vfs_snapshot::file_copied(
        original.vfs_files.records@[i],
        copy.vfs_files.records@[i],
        before.resources.forks@,
        after.resources.forks@,
    ));
}

/// A copy has the same files open, the same of them writable, the same
/// completions waiting and the same working directories, and it counts on
/// from the same numbers.
pub proof fn copied_access_answers_alike(
    original: ProcessFileSystemState,
    before: FileCells,
    copy: ProcessFileSystemState,
    after: FileCells,
    ref_num: u16,
    directory: i16,
    i: int,
)
    requires
        original.access_copied(&before, &copy, &after),
    ensures
        copy.files.records(&after.open_files) == original.files.records(&before.open_files),
        after.writable@[copy.writable_refnums.id()]@.contains(ref_num)
            <==> before.writable@[original.writable_refnums.id()]@.contains(ref_num),
        ({
            let waiting = before.completions@[original.pending_completions.id()]@;
            let copied = after.completions@[copy.pending_completions.id()]@;
            &&& copied.len() == waiting.len()
            &&& 0 <= i < waiting.len() ==> copied[i] == waiting[i]
        }),
        ({
            let known = before.working_directories@[original.working_directories.id()]@;
            let copied = after.working_directories@[copy.working_directories.id()]@;
            &&& copied.dom().contains(directory) <==> known.dom().contains(directory)
            &&& known.dom().contains(directory) ==> copied[directory] == known[directory]
        }),
        after.next_working_directories@[copy.next_working_directory_ref_num.id()]
            == before.next_working_directories@[original.next_working_directory_ref_num.id()],
        after.application_directories@[copy.application_working_directory_ref_num.id()]
            == before.application_directories@[original.application_working_directory_ref_num.id()],
        copy.next_file_ref_num == original.next_file_ref_num,
{
    let waiting = before.completions@[original.pending_completions.id()]@;
    if 0 <= i < waiting.len() {
        assert(waiting[i].same(&after.completions@[copy.pending_completions.id()]@[i]));
    }
}

/// A copy has the same streams, the same deletions and the same resources in
/// use as its original.
pub proof fn copied_streams_answer_alike(
    original: ProcessFileSystemState,
    before: FileCells,
    copy: ProcessFileSystemState,
    after: FileCells,
    stream: u32,
    i: int,
)
    requires
        original.access_copied(&before, &copy, &after),
    ensures
        copy.stdio_streams@.dom().contains(stream) <==> original.stdio_streams@.dom().contains(
            stream,
        ),
        original.stdio_streams@.dom().contains(stream) ==> {
            let known = original.stdio_streams@[stream];
            let copied = copy.stdio_streams@[stream];
            &&& copied.ref_num == known.ref_num
            &&& copied.position == known.position
            &&& copied.path is Some <==> known.path is Some
            &&& known.path is Some ==> copied.path->0@ == known.path->0@
            &&& copied.closed == known.closed
            &&& copied.eof == known.eof
            &&& copied.readable == known.readable
            &&& copied.writable == known.writable
        },
        copy.deleted_vfs_file_paths@.len() == original.deleted_vfs_file_paths@.len(),
        0 <= i < original.deleted_vfs_file_paths@.len() ==> copy.deleted_vfs_file_paths@[i]@
            == original.deleted_vfs_file_paths@[i]@,
        ({
            let manager = original.resource_manager.state(&before.managers);
            let copied = copy.resource_manager.state(&after.managers);
            &&& after.resources.current_files@[copied.current_resource_file.id()]
                == before.resources.current_files@[manager.current_resource_file.id()]
            &&& copied.policy.state(&after.resources.policies) == manager.policy.state(
                &before.resources.policies,
            )
            &&& copied.vfs_resources@.len() == manager.vfs_resources@.len()
            &&& 0 <= i < manager.vfs_resources@.len() ==> {
                &&& copied.vfs_resources@[i].path@ == manager.vfs_resources@[i].path@
                &&& copied.vfs_resources@[i].res_type == manager.vfs_resources@[i].res_type
                &&& copied.vfs_resources@[i].res_id == manager.vfs_resources@[i].res_id
                &&& copied.vfs_resources@[i].data@.len() == manager.vfs_resources@[i].data@.len()
            }
        }),
{
    let manager = original.resource_manager.state(&before.managers);
    let copied = copy.resource_manager.state(&after.managers);
    if 0 <= i < manager.vfs_resources@.len() {
        assert(manager.vfs_resources@[i].same(&copied.vfs_resources@[i]));
    }
    if 0 <= i < original.deleted_vfs_file_paths@.len() {
        assert(original.deleted_vfs_file_paths@[i].same(&copy.deleted_vfs_file_paths@[i]));
    }
    if original.stdio_streams@.dom().contains(stream) {
        assert(original.stdio_streams@[stream].same(&copy.stdio_streams@[stream]));
    }
}

/// A copied resource keeps its bytes, its name and its attributes.
pub proof fn copied_resource_is_the_same(
    resource: ProcessVfsResourceRecord,
    copy: ProcessVfsResourceRecord,
    i: int,
)
    requires
        resource.same(&copy),
    ensures
        copy.ref_num == resource.ref_num,
        copy.path@ == resource.path@,
        copy.res_type == resource.res_type,
        copy.res_id == resource.res_id,
        copy.attrs == resource.attrs,
        copy.raw_attrs == resource.raw_attrs,
        copy.handle == resource.handle,
        copy.data@.len() == resource.data@.len(),
        0 <= i < resource.data@.len() ==> copy.data@[i] == resource.data@[i],
        copy.name@.len() == resource.name@.len(),
        0 <= i < resource.name@.len() ==> copy.name@[i] == resource.name@[i],
        copy.raw_data is Some <==> resource.raw_data is Some,
{
    if 0 <= i < resource.data@.len() {
        assert(resource.data@[i].same(&copy.data@[i]));
    }
    if 0 <= i < resource.name@.len() {
        assert(resource.name@[i].same(&copy.name@[i]));
    }
}

/// Copied resource tables know the same handles.
pub proof fn copied_resource_tables_know_the_same(
    tables: ProcessResourceTables,
    copy: ProcessResourceTables,
)
    requires
        tables.same(&copy),
    ensures
        copy.loaded_handles@.dom() == tables.loaded_handles@.dom(),
        copy.resource_handles_by_key@.dom() == tables.resource_handles_by_key@.dom(),
        copy.detached_handles@.dom() == tables.detached_handles@.dom(),
        copy.resource_handle_files@.dom() == tables.resource_handle_files@.dom(),
        copy.detached_handle_files@.dom() == tables.detached_handle_files@.dom(),
        copy.resource_backing_data@.dom() == tables.resource_backing_data@.dom(),
        copy.resident_resources@ == tables.resident_resources@,
        copy.resource_files@.len() == tables.resource_files@.len(),
        copy.resource_file_order@.len() == tables.resource_file_order@.len(),
        copy.resources is Some <==> tables.resources is Some,
        tables.resources is Some ==> copy.resources->0.current_file
            == tables.resources->0.current_file && copy.resources->0.files@.dom()
            == tables.resources->0.files@.dom(),
{
}

/// A copied descriptor has the type, the bytes, the fields and the items of
/// its original.
pub proof fn copied_descriptor_is_the_same(
    descriptor: ProcessAeDescriptor,
    copy: ProcessAeDescriptor,
    key: u32,
    i: int,
)
    requires
        crate::apple_events::same_descriptor(descriptor, copy),
    ensures
        copy.desc_type == descriptor.desc_type,
        copy.data@ == descriptor.data@,
        copy.fields@.dom().contains(key) <==> descriptor.fields@.dom().contains(key),
        descriptor.fields@.dom().contains(key) ==> copy.fields@[key].desc_type
            == descriptor.fields@[key].desc_type && copy.fields@[key].data@
            == descriptor.fields@[key].data@,
        copy.items@.len() == descriptor.items@.len(),
        0 <= i < descriptor.items@.len() ==> copy.items@[i].0 == descriptor.items@[i].0
            && copy.items@[i].1.desc_type == descriptor.items@[i].1.desc_type
            && copy.items@[i].1.data@ == descriptor.items@[i].1.data@,
{
    reveal_with_fuel(crate::apple_events::same_descriptor, 2);
}

/// Copied event tables know the same events and descriptors.
pub proof fn copied_descriptor_tables_know_the_same(
    tables: ProcessAppleEventDescriptors,
    copy: ProcessAppleEventDescriptors,
    address: u32,
)
    requires
        tables.same(&copy),
    ensures
        copy.events@.dom().contains(address) <==> tables.events@.dom().contains(address),
        tables.events@.dom().contains(address) ==> copy.events@[address].event_class
            == tables.events@[address].event_class && copy.events@[address].event_id
            == tables.events@[address].event_id && copy.events@[address].params@.dom()
            == tables.events@[address].params@.dom() && copy.events@[address].items@.len()
            == tables.events@[address].items@.len(),
        copy.descriptors@.dom().contains(address) <==> tables.descriptors@.dom().contains(address),
        tables.descriptors@.dom().contains(address) ==> crate::apple_events::same_descriptor(
            tables.descriptors@[address],
            copy.descriptors@[address],
        ),
        copy.backing@.dom().contains(address) <==> tables.backing@.dom().contains(address),
        tables.backing@.dom().contains(address) ==> crate::apple_events::same_descriptor(
            tables.backing@[address],
            copy.backing@[address],
        ),
{
    if tables.events@.dom().contains(address) {
        assert(tables.events@[address].same(&copy.events@[address]));
    }
    if tables.descriptors@.dom().contains(address) {
        assert(tables.descriptors@[address].same(&copy.descriptors@[address]));
    }
    if tables.backing@.dom().contains(address) {
        assert(tables.backing@[address].same(&copy.backing@[address]));
    }
}

/// A copied list shows the same cells and the same selection.
pub proof fn copied_list_is_the_same(list: ProcessListRecord, copy: ProcessListRecord)
    requires
        list.same(&copy),
    ensures
        copy.handle == list.handle,
        copy.view_rect == list.view_rect,
        copy.data_bounds == list.data_bounds,
        copy.cell_size == list.cell_size,
        copy.visible == list.visible,
        copy.active == list.active,
        copy.draw_enabled == list.draw_enabled,
        copy.last_click == list.last_click,
        copy.last_click_tick == list.last_click_tick,
        copy.selected@ == list.selected@,
        copy.cells@.dom() == list.cells@.dom(),
{
}

/// A copied scrap has the same entries, count and handle.
pub proof fn copied_scrap_is_the_same(scrap: ProcessScrapState, copy: ProcessScrapState)
    requires
        scrap.same(&copy),
    ensures
        copy.count == scrap.count,
        copy.handle == scrap.handle,
        copy.in_memory == scrap.in_memory,
        copy.initialized == scrap.initialized,
        copy.handle_dirty == scrap.handle_dirty,
        copy.stuff_ptr == scrap.stuff_ptr,
        copy.model() == scrap.model(),
{
}

/// Where a classic catalogue joins a process, what either of them described,
/// locked or listed is the process's, and neither is lost.
pub proof fn joined_catalogue_is_of_either(
    catalogue: ClassicCatalogue,
    process: ProcessFileSystemState,
    before: FileCells,
    after: FileCells,
    path: Seq<char>,
)
    requires
        catalogue.valid(&before),
        process.valid(&before),
        catalogue.can_join(&process, &before),
        catalogue.joins(&process, &before, &after),
    ensures
        ({
            let own = before.metadata@[catalogue.metadata.id()]@;
            let known = before.metadata@[process.classic_vfs_metadata.id()]@;
            let joined = after.metadata@[process.classic_vfs_metadata.id()]@;
            &&& own.dom().contains(path) ==> joined.dom().contains(path) && joined[path]
                == own[path]
            &&& known.dom().contains(path) ==> joined.dom().contains(path) && joined[path]
                == known[path]
            &&& joined.dom().contains(path) ==> own.dom().contains(path) || known.dom().contains(
                path,
            )
        }),
        after.locked@[process.classic_locked_files.id()]@.contains(path) <==> (
        before.locked@[catalogue.locked_files.id()]@.contains(path)
            || before.locked@[process.classic_locked_files.id()]@.contains(path)),
        before.directories@[catalogue.directories.id()]@.len() > 3
            ==> after.directories@[process.vfs_directories.id()]
            == before.directories@[catalogue.directories.id()],
        before.directories@[process.vfs_directories.id()]@.len() > 3
            ==> after.directories@[process.vfs_directories.id()]
            == before.directories@[process.vfs_directories.id()],
{
    let own = before.metadata@[catalogue.metadata.id()]@;
    let known = before.metadata@[process.classic_vfs_metadata.id()]@;
    if own.dom().contains(path) {
        assert(own != Map::<Seq<char>, crate::vfs::ProcessVfsMetadata>::empty());
    }
    if known.dom().contains(path) {
        assert(known != Map::<Seq<char>, crate::vfs::ProcessVfsMetadata>::empty());
    }
    if before.locked@[catalogue.locked_files.id()]@.contains(path) {
        assert(before.locked@[catalogue.locked_files.id()]@ != Set::<Seq<char>>::empty());
    }
    if before.locked@[process.classic_locked_files.id()]@.contains(path) {
        assert(before.locked@[process.classic_locked_files.id()]@ != Set::<Seq<char>>::empty());
    }
}

/// Where a classic catalogue joins a process, a number that either of them
/// has moved on is the process's.
pub proof fn joined_numbers_are_of_either(
    catalogue: ClassicCatalogue,
    process: ProcessFileSystemState,
    before: FileCells,
    after: FileCells,
)
    requires
        catalogue.valid(&before),
        process.valid(&before),
        catalogue.can_join(&process, &before),
        catalogue.joins(&process, &before, &after),
    ensures
        ({
            let own = before.next_file_ids@[catalogue.next_file_id.id()];
            let known = before.next_file_ids@[process.classic_next_vfs_file_id.id()];
            let joined = after.next_file_ids@[process.classic_next_vfs_file_id.id()];
            &&& own != 32 ==> joined == own
            &&& known != 32 ==> joined == known
        }),
        ({
            let own = before.next_timestamps@[catalogue.next_timestamp.id()];
            let known = before.next_timestamps@[process.classic_next_vfs_timestamp.id()];
            let joined = after.next_timestamps@[process.classic_next_vfs_timestamp.id()];
            &&& own != 1 ==> joined == own
            &&& known != 1 ==> joined == known
        }),
        ({
            let own = before.next_directories@[catalogue.next_dir_id.id()];
            let known = before.next_directories@[process.next_vfs_dir_id.id()];
            let joined = after.next_directories@[process.next_vfs_dir_id.id()];
            &&& own > 18 ==> joined == own
            &&& known > 18 ==> joined == known
            &&& known == 0 && own != 0 ==> joined == own
        }),
        ({
            let own = before.default_directories@[catalogue.default_dir_id.id()];
            let known = before.default_directories@[process.default_dir_id.id()];
            let joined = after.default_directories@[process.default_dir_id.id()];
            &&& own > 2 ==> joined == own
            &&& known > 2 ==> joined == known
            &&& known == 0 && own != 0 ==> joined == own
        }),
{
}

/// Catalogues that both have descriptions, or that both have moved on a
/// number, are not joined.
pub proof fn two_used_catalogues_are_not_joined(
    catalogue: ClassicCatalogue,
    process: ProcessFileSystemState,
    cells: FileCells,
    path: Seq<char>,
    other: Seq<char>,
)
    ensures
        catalogue.metadata.id() != process.classic_vfs_metadata.id()
            && cells.metadata@[catalogue.metadata.id()]@.dom().contains(path)
            && cells.metadata@[process.classic_vfs_metadata.id()]@.dom().contains(other)
            ==> !catalogue.can_join(&process, &cells),
        catalogue.locked_files.id() != process.classic_locked_files.id()
            && cells.locked@[catalogue.locked_files.id()]@.contains(path)
            && cells.locked@[process.classic_locked_files.id()]@.contains(other)
            ==> !catalogue.can_join(&process, &cells),
        catalogue.next_dir_id.id() != process.next_vfs_dir_id.id()
            && cells.next_directories@[catalogue.next_dir_id.id()] > 18
            && cells.next_directories@[process.next_vfs_dir_id.id()] > 18 ==> !catalogue.can_join(
            &process,
            &cells,
        ),
        catalogue.default_dir_id.id() != process.default_dir_id.id()
            && cells.default_directories@[catalogue.default_dir_id.id()] > 2
            && cells.default_directories@[process.default_dir_id.id()] > 2 ==> !catalogue.can_join(
            &process,
            &cells,
        ),
{
}

} // verus!
