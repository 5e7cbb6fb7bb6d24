//! File system and Resource Manager state that adapters share.

use systemless::assoc::{AssocMap, KeySet};
use systemless::cells::SharedProcessValue;
use systemless::context_files::ClassicCatalogue;
use systemless::cursor::CursorImage;
use systemless::file_share::SharedProcessFileSystem;
use systemless::file_system::{
    FileCells, PendingFileCompletion, ProcessFileSystemState, ProcessStdioStreamRecord,
};
use systemless::forks::{ProcessForkBytes, ProcessForkMap};
use systemless::keys::FourCharCode;
use systemless::open_files::ProcessOpenFileRecord;
use systemless::process_context::{ProcessCells, ProcessContext, ProcessDefaults};
use systemless::resource_manager::{
    ProcessResourceManagerState, ProcessVfsResourceRecord, SharedProcessResourceManager,
};
use systemless::vfs::{
    ProcessVfsDirectory, ProcessVfsFileRecord, ProcessVfsMetadata, ProcessVfsResourceFileRecord,
    ProcessVfsVolumeRecord,
};

fn new_context(cells: &mut ProcessCells) -> ProcessContext {
    let defaults = ProcessDefaults {
        colors: [[0xFFFF; 3]; 256],
        gamma: [[7; 256]; 3],
        arrow: CursorImage::mono([0xAA; 32], [0xFF; 32], 1, 1),
    };
    ProcessContext::new(cells, &defaults)
}

/// A file system of its own.
fn detached_file_system(cells: &mut ProcessCells) -> SharedProcessFileSystem {
    let state = ProcessFileSystemState::new(&mut cells.files);
    SharedProcessFileSystem::from_state(&mut cells.file_systems, state)
}

fn state<'a>(cells: &'a ProcessCells, files: &SharedProcessFileSystem) -> &'a ProcessFileSystemState {
    cells.file_systems.get(&files.cell)
}

fn four(code: &[u8; 4]) -> u32 {
    u32::from_be_bytes(*code)
}

fn file_record(
    cells: &mut FileCells,
    path: &str,
    data: &[u8],
    creator: u32,
    file_type: u32,
    dirty: bool,
) -> ProcessVfsFileRecord {
    ProcessVfsFileRecord {
        path: path.to_string(),
        data: ProcessForkBytes::from_bytes(&mut cells.resources.forks, data.to_vec()),
        creator,
        file_type,
        finder_flags: 0,
        dirty,
    }
}

fn resource_file_record(
    cells: &mut FileCells,
    path: &str,
    data: &[u8],
    creator: u32,
    file_type: u32,
    dirty: bool,
) -> ProcessVfsResourceFileRecord {
    ProcessVfsResourceFileRecord {
        path: path.to_string(),
        creator,
        file_type,
        finder_flags: 0,
        resource_len: data.len() as u32,
        raw_data: Some(ProcessForkBytes::from_bytes(
            &mut cells.resources.forks,
            data.to_vec(),
        )),
        map_attrs: 0,
        dirty,
    }
}

fn push_file(
    cells: &mut ProcessCells,
    files: &SharedProcessFileSystem,
    path: &str,
    data: &[u8],
    dirty: bool,
) {
    let record = file_record(&mut cells.files, path, data, 0, 0, dirty);
    cells
        .file_systems
        .get_mut(&files.cell)
        .vfs_files
        .push(&mut cells.files.data_maps, record);
}

fn data_of<'a>(
    cells: &'a ProcessCells,
    files: &SharedProcessFileSystem,
    index: usize,
) -> &'a Vec<u8> {
    state(cells, files).vfs_files.records[index]
        .data
        .as_bytes(&cells.files.resources.forks)
}

fn directory(dir_id: u32, parent_dir_id: u32, path: &str) -> ProcessVfsDirectory {
    ProcessVfsDirectory {
        dir_id,
        parent_dir_id,
        path: path.to_string(),
        creator: 0,
        file_type: 0,
        finder_flags: 0,
        dirty: false,
    }
}

fn games() -> ProcessVfsDirectory {
    ProcessVfsDirectory {
        dir_id: 16,
        parent_dir_id: 2,
        path: "Games".to_string(),
        creator: four(b"TEST"),
        file_type: four(b"fold"),
        finder_flags: 0x0400,
        dirty: true,
    }
}

fn resource_record(res_id: i16, name: &[u8], data: &[u8]) -> ProcessVfsResourceRecord {
    ProcessVfsResourceRecord {
        ref_num: 2,
        path: "Shared".to_string(),
        res_type: four(b"TEST"),
        res_id,
        name: name.to_vec(),
        data: data.to_vec(),
        raw_data: None,
        raw_attrs: None,
        attrs: 0,
        handle: 0,
    }
}

#[test]
fn attached_classic_file_maps_share_mutations_while_clones_detach() {
    let mut cells = ProcessCells::new();
    let context = new_context(&mut cells);
    let mut native = detached_file_system(&mut cells);
    let mut first_data =
        SharedProcessValue::from_value(&mut cells.files.data_maps, ProcessForkMap::new());
    let mut first_resources =
        SharedProcessValue::from_value(&mut cells.files.resources.maps, ProcessForkMap::new());
    let before = ProcessForkBytes::from_bytes(&mut cells.files.resources.forks, b"before".to_vec());
    first_data.insert(&mut cells.files.data_maps, "Existing".to_string(), before);
    let mut second_data =
        SharedProcessValue::from_value(&mut cells.files.data_maps, ProcessForkMap::new());
    let mut second_resources =
        SharedProcessValue::from_value(&mut cells.files.resources.maps, ProcessForkMap::new());

    context.attach_classic_file_system(&mut cells, &mut first_data, &mut first_resources);
    context.attach_classic_file_system(&mut cells, &mut second_data, &mut second_resources);
    context.attach_file_system(&mut cells, &mut native);
    let detached_data = second_data.detached_clone(
        &mut cells.files.data_maps,
        &mut cells.files.resources.forks,
    );
    let detached_resources = second_resources.detached_clone(
        &mut cells.files.resources.maps,
        &mut cells.files.resources.forks,
    );

    push_file(&mut cells, &native, "Created", b"native", true);
    let record = resource_file_record(&mut cells.files, "Created", b"resource", 0, 0, true);
    cells
        .file_systems
        .get(&native.cell)
        .push_vfs_resource_file(&mut cells.files, record);

    second_data
        .with_entry_mut(
            &cells.files.data_maps,
            &mut cells.files.resources.forks,
            "Existing",
            |bytes| bytes.extend_from_slice(b"-after"),
        )
        .unwrap();
    let resource =
        ProcessForkBytes::from_bytes(&mut cells.files.resources.forks, b"resource".to_vec());
    first_resources.insert(
        &mut cells.files.resources.maps,
        "Existing".to_string(),
        resource,
    );
    second_resources
        .with_entry_mut(
            &cells.files.resources.maps,
            &mut cells.files.resources.forks,
            "Created",
            |bytes| bytes.extend_from_slice(b"-classic"),
        )
        .unwrap();

    assert!(first_data.ptr_eq(&second_data));
    assert!(first_resources.ptr_eq(&second_resources));
    let forks = &cells.files.resources.forks;
    let data_maps = &cells.files.data_maps;
    let resource_maps = &cells.files.resources.maps;
    assert_eq!(
        data_maps.get(&first_data).get(forks, "Existing").unwrap(),
        b"before-after"
    );
    assert_eq!(
        data_maps.get(&second_data).get(forks, "Created").unwrap(),
        b"native"
    );
    assert_eq!(
        resource_maps
            .get(&second_resources)
            .get(forks, "Existing")
            .unwrap(),
        b"resource"
    );
    let manager = &state(&cells, &native).resource_manager;
    assert_eq!(
        cells
            .files
            .managers
            .get(&manager.cell)
            .vfs_resource_files
            .records[0]
            .raw_data
            .as_ref()
            .unwrap()
            .as_bytes(forks),
        b"resource-classic"
    );
    assert_eq!(
        data_maps.get(&detached_data).get(forks, "Existing").unwrap(),
        b"before"
    );
    assert!(!data_maps.get(&detached_data).contains_key("Created"));
    assert!(resource_maps.get(&detached_resources).is_empty());
}

fn classic_catalogue(
    cells: &mut ProcessCells,
    directories: Vec<ProcessVfsDirectory>,
) -> ClassicCatalogue {
    ClassicCatalogue {
        directories: SharedProcessValue::from_value(&mut cells.files.directories, directories),
        metadata: SharedProcessValue::from_value(
            &mut cells.files.metadata,
            AssocMap::<String, ProcessVfsMetadata>::new(),
        ),
        locked_files: SharedProcessValue::from_value(
            &mut cells.files.locked,
            KeySet::<String>::new(),
        ),
        next_dir_id: SharedProcessValue::from_value(&mut cells.files.next_directories, 16),
        next_file_id: SharedProcessValue::from_value(&mut cells.files.next_file_ids, 32),
        next_timestamp: SharedProcessValue::from_value(&mut cells.files.next_timestamps, 1),
        default_dir_id: SharedProcessValue::from_value(&mut cells.files.default_directories, 2),
    }
}

#[test]
fn attached_classic_catalogues_share_mutations_while_clones_detach() {
    let mut cells = ProcessCells::new();
    let context = new_context(&mut cells);
    let root = ProcessVfsDirectory {
        dir_id: 2,
        parent_dir_id: 1,
        path: String::new(),
        creator: four(b"MACS"),
        file_type: four(b"fold"),
        finder_flags: 0,
        dirty: false,
    };
    let mut first = classic_catalogue(&mut cells, vec![root]);
    context.attach_classic_vfs_catalogue(&mut cells, &mut first);

    let mut second = classic_catalogue(&mut cells, Vec::new());
    context.attach_classic_vfs_catalogue(&mut cells, &mut second);
    assert!(first.directories.ptr_eq(&second.directories));
    let detached_directories = second
        .directories
        .detached_clone(&mut cells.files.directories);
    let detached_default_dir_id = second
        .default_dir_id
        .detached_clone(&mut cells.files.default_directories);

    first
        .directories
        .push(&mut cells.files.directories, games());
    first
        .next_dir_id
        .with_mut(&mut cells.files.next_directories, |next_dir_id| {
            *next_dir_id = 17
        });
    first
        .default_dir_id
        .with_mut(&mut cells.files.default_directories, |default_dir_id| {
            *default_dir_id = 16
        });

    let directories = cells.files.directories.get(&second.directories);
    assert!(directories
        .iter()
        .any(|directory| directory.path == "Games"));
    assert_eq!(
        directories
            .iter()
            .find(|directory| directory.dir_id == 16)
            .map(|directory| directory.path.as_str()),
        Some("Games")
    );
    assert_eq!(
        *cells.files.next_directories.get(&second.next_dir_id),
        17
    );
    assert_eq!(
        *cells.files.default_directories.get(&second.default_dir_id),
        16
    );
    assert!(!cells
        .files
        .directories
        .get(&detached_directories)
        .iter()
        .any(|directory| directory.path == "Games"));
    assert_eq!(
        *cells.files.default_directories.get(&detached_default_dir_id),
        2
    );
}

#[test]
fn attached_file_systems_share_catalogue_state_while_clones_detach() {
    let mut cells = ProcessCells::new();
    let context = new_context(&mut cells);
    let mut files = detached_file_system(&mut cells);
    push_file(&mut cells, &files, "Existing", b"data", false);
    let mut first = detached_file_system(&mut cells);
    let volumes = SharedProcessValue::from_value(
        &mut cells.files.volumes,
        vec![ProcessVfsVolumeRecord {
            ref_num: -1,
            name: "Macintosh HD".to_string(),
            root_dir_id: 2,
            attributes: 0,
            file_count: 1,
            allocation_block_count: 100,
            allocation_block_size: 4096,
            clump_size: 4096,
            free_blocks: 50,
            bitmap_start: 3,
            allocation_pointer: 4,
            allocation_start: 5,
            next_catalog_id: 17,
            created_date: 1,
            modified_date: 2,
        }],
    );
    let directories =
        SharedProcessValue::from_value(&mut cells.files.directories, vec![directory(2, 1, "")]);
    let next_dir_id = SharedProcessValue::from_value(&mut cells.files.next_directories, 16);
    let default_dir_id = SharedProcessValue::from_value(&mut cells.files.default_directories, 2);
    first.with_mut(&mut cells.file_systems, |file_system| {
        file_system.vfs_volumes = volumes;
        file_system.vfs_directories = directories;
        file_system.next_vfs_dir_id = next_dir_id;
        file_system.default_dir_id = default_dir_id;
    });
    let mut second = detached_file_system(&mut cells);

    context.attach_file_system(&mut cells, &mut files);
    context.attach_file_system(&mut cells, &mut first);
    context.attach_file_system(&mut cells, &mut second);
    let detached = second.detached_clone(&mut cells.file_systems, &mut cells.files);

    let shared = cells.file_systems.get(&first.cell);
    shared
        .vfs_directories
        .push(&mut cells.files.directories, games());
    shared
        .vfs_volumes
        .with_mut(&mut cells.files.volumes, |volumes| {
            volumes[0].file_count = 2
        });
    shared
        .next_vfs_dir_id
        .with_mut(&mut cells.files.next_directories, |next_dir_id| {
            *next_dir_id = 17
        });
    shared
        .default_dir_id
        .with_mut(&mut cells.files.default_directories, |default_dir_id| {
            *default_dir_id = 16
        });

    assert!(files.ptr_eq(&first));
    assert!(first.ptr_eq(&second));
    assert_eq!(data_of(&cells, &second, 0), b"data");
    let seen = state(&cells, &second);
    assert_eq!(
        cells.files.directories.get(&seen.vfs_directories)[1].path,
        "Games"
    );
    assert_eq!(cells.files.volumes.get(&seen.vfs_volumes)[0].file_count, 2);
    assert_eq!(*cells.files.next_directories.get(&seen.next_vfs_dir_id), 17);
    assert_eq!(
        *cells.files.default_directories.get(&seen.default_dir_id),
        16
    );
    let apart = state(&cells, &detached);
    assert_eq!(cells.files.directories.get(&apart.vfs_directories).len(), 1);
    assert_eq!(cells.files.volumes.get(&apart.vfs_volumes)[0].file_count, 1);
    assert_eq!(
        *cells.files.next_directories.get(&apart.next_vfs_dir_id),
        16
    );
    assert_eq!(
        *cells.files.default_directories.get(&apart.default_dir_id),
        2
    );
}

#[test]
fn attached_file_systems_share_launched_application_path_while_detaching_clones() {
    let mut cells = ProcessCells::new();
    let context = new_context(&mut cells);
    let mut source = detached_file_system(&mut cells);
    source.with_mut(&mut cells.file_systems, |file_system| {
        file_system.launched_app_path = Some("Apps/Main App".to_string());
    });
    let mut native = detached_file_system(&mut cells);

    context.attach_file_system(&mut cells, &mut source);
    context.attach_file_system(&mut cells, &mut native);
    assert!(source.ptr_eq(&native));
    assert_eq!(
        state(&cells, &native).launched_app_path.as_deref(),
        Some("Apps/Main App")
    );

    let detached_clone = native.detached_clone(&mut cells.file_systems, &mut cells.files);
    let detached_snapshot =
        native.detached_vfs_snapshot(&mut cells.file_systems, &mut cells.files);
    native.with_mut(&mut cells.file_systems, |file_system| {
        file_system.launched_app_path = Some("Apps/Other App".to_string());
    });

    assert_eq!(
        state(&cells, &source).launched_app_path.as_deref(),
        Some("Apps/Other App")
    );
    assert_eq!(
        state(&cells, &detached_clone).launched_app_path.as_deref(),
        Some("Apps/Main App")
    );
    assert_eq!(
        state(&cells, &detached_snapshot).launched_app_path.as_deref(),
        Some("Apps/Main App")
    );
}

fn stdio_stream(
    ref_num: i16,
    path: &str,
    position: u32,
    writable: bool,
    append: bool,
) -> ProcessStdioStreamRecord {
    ProcessStdioStreamRecord {
        ref_num: Some(ref_num),
        path: Some(path.to_string()),
        position,
        standard: false,
        readable: true,
        writable,
        append,
        closed: false,
        eof: false,
        error: false,
    }
}

#[test]
fn attached_file_systems_share_open_stdio_vfs_and_deletion_records_while_clones_detach() {
    let mut cells = ProcessCells::new();
    let context = new_context(&mut cells);
    let mut classic = detached_file_system(&mut cells);
    state(&cells, &classic).files.shared_handle().push(
        &mut cells.files.open_files,
        ProcessOpenFileRecord {
            ref_num: 7,
            path: "Classic/first.bin".to_string(),
            position: 3,
        },
    );
    classic.with_mut(&mut cells.file_systems, |file_system| {
        file_system
            .stdio_streams
            .insert(0x1000, stdio_stream(7, "Classic/first.bin", 3, false, false));
        file_system
            .deleted_vfs_file_paths
            .push("Classic/removed.bin".to_string());
    });
    push_file(&mut cells, &classic, "Classic/first.bin", b"classic", false);

    let mut native = detached_file_system(&mut cells);
    context.attach_file_system(&mut cells, &mut classic);
    context.attach_file_system(&mut cells, &mut native);
    assert!(classic.ptr_eq(&native));
    let detached = native.detached_clone(&mut cells.file_systems, &mut cells.files);

    state(&cells, &native).files.shared_handle().push(
        &mut cells.files.open_files,
        ProcessOpenFileRecord {
            ref_num: 8,
            path: "Native/second.bin".to_string(),
            position: 11,
        },
    );
    native.with_mut(&mut cells.file_systems, |file_system| {
        file_system
            .stdio_streams
            .insert(0x2000, stdio_stream(8, "Native/second.bin", 11, true, true));
        file_system
            .deleted_vfs_file_paths
            .push("Native/removed.bin".to_string());
    });
    push_file(&mut cells, &native, "Native/second.bin", b"native", true);

    let shared = state(&cells, &classic);
    assert_eq!(
        cells.files.open_files.get(&shared.files.cell)[1].path,
        "Native/second.bin"
    );
    assert_eq!(shared.stdio_streams.get(&0x2000).unwrap().position, 11);
    assert_eq!(data_of(&cells, &classic, 1), b"native");
    assert_eq!(
        shared.deleted_vfs_file_paths,
        ["Classic/removed.bin", "Native/removed.bin"]
    );

    let apart = state(&cells, &detached);
    assert_eq!(cells.files.open_files.get(&apart.files.cell).len(), 1);
    assert_eq!(apart.stdio_streams.len(), 1);
    assert_eq!(apart.vfs_files.records.len(), 1);
    assert_eq!(apart.deleted_vfs_file_paths, ["Classic/removed.bin"]);
}

#[test]
fn attached_file_systems_share_completion_fifo_while_clones_detach() {
    let first_completion = PendingFileCompletion {
        parameter_block: 0x1000,
        completion_addr: 0x2000,
        result: 0,
    };
    let second_completion = PendingFileCompletion {
        parameter_block: 0x3000,
        completion_addr: 0x4000,
        result: -39,
    };
    let third_completion = PendingFileCompletion {
        parameter_block: 0x5000,
        completion_addr: 0x6000,
        result: -51,
    };

    let mut cells = ProcessCells::new();
    let context = new_context(&mut cells);
    state(&cells, &context.file_system)
        .pending_completions
        .shared_handle()
        .push_back(&mut cells.files.completions, first_completion);

    let mut first = detached_file_system(&mut cells);
    state(&cells, &first)
        .pending_completions
        .shared_handle()
        .push_back(&mut cells.files.completions, second_completion);
    let mut second = detached_file_system(&mut cells);
    context.attach_file_system(&mut cells, &mut first);
    context.attach_file_system(&mut cells, &mut second);

    let first_queue = state(&cells, &first).pending_completions.shared_handle();
    let second_queue = state(&cells, &second).pending_completions.shared_handle();
    assert!(first_queue.ptr_eq(&second_queue));
    second_queue.push_back(&mut cells.files.completions, third_completion);
    let detached = second.detached_clone(&mut cells.file_systems, &mut cells.files);
    let detached_queue = state(&cells, &detached).pending_completions.shared_handle();

    let queues = &mut cells.files.completions;
    assert_eq!(first_queue.pop_front(queues), Some(first_completion));
    assert_eq!(first_queue.pop_front(queues), Some(second_completion));
    assert_eq!(first_queue.pop_front(queues), Some(third_completion));
    assert!(queues.get(&second_queue).is_empty());
    assert_eq!(detached_queue.pop_front(queues), Some(first_completion));
    assert_eq!(queues.get(&detached_queue).len(), 2);
}

#[test]
fn attaching_populated_file_systems_merges_persistent_catalogues() {
    let mut cells = ProcessCells::new();
    let context = new_context(&mut cells);
    let record = file_record(
        &mut cells.files,
        "Shared",
        b"classic",
        four(b"CLSC"),
        four(b"TEXT"),
        false,
    );
    cells
        .file_systems
        .get_mut(&context.file_system.cell)
        .vfs_files
        .push(&mut cells.files.data_maps, record);
    let record = resource_file_record(
        &mut cells.files,
        "Shared",
        b"classic-resource",
        four(b"CLSC"),
        four(b"APPL"),
        false,
    );
    let target = cells.file_systems.get(&context.file_system.cell);
    target.push_vfs_resource_file(&mut cells.files, record);
    target.push_vfs_resource(&mut cells.files, resource_record(128, b"Target", b"target"));

    let mut native = detached_file_system(&mut cells);
    for (path, data) in [
        ("Shared", b"native".as_slice()),
        ("Native", b"new".as_slice()),
    ] {
        let record = file_record(
            &mut cells.files,
            path,
            data,
            four(b"NATV"),
            four(b"TEXT"),
            false,
        );
        cells
            .file_systems
            .get_mut(&native.cell)
            .vfs_files
            .push(&mut cells.files.data_maps, record);
    }
    for (res_id, data) in [(128, b"source".as_slice()), (129, b"new".as_slice())] {
        cells
            .file_systems
            .get(&native.cell)
            .push_vfs_resource(&mut cells.files, resource_record(res_id, b"", data));
    }
    context.attach_file_system(&mut cells, &mut native);

    let merged = state(&cells, &native);
    assert_eq!(merged.vfs_files.records.len(), 2);
    assert_eq!(data_of(&cells, &native, 0), b"classic");
    assert_eq!(merged.vfs_files.records[1].path, "Native");
    assert_eq!(data_of(&cells, &native, 1), b"new");
    let resources = cells.files.managers.get(&merged.resource_manager.cell);
    assert_eq!(resources.vfs_resources.len(), 2);
    assert_eq!(resources.vfs_resources[0].data, b"target");
    assert_eq!(resources.vfs_resources[1].res_id, 129);
    assert_eq!(resources.vfs_resources[1].data, b"new");
    assert_eq!(
        resources
            .vfs_resource_files
            .fork(
                &cells.files.resources.maps,
                &cells.files.resources.forks,
                "Shared"
            )
            .unwrap(),
        b"classic-resource"
    );
}

#[test]
fn native_catalogue_preserves_recreated_file_after_pending_delete() {
    let mut cells = FileCells::new();
    let mut state = ProcessFileSystemState::new(&mut cells);
    let path = "Pilots/Test Pilot";
    let record = file_record(&mut cells, path, b"old", 0, 0, true);
    state.vfs_files.push(&mut cells.data_maps, record);
    state.publish_native_vfs_catalogue(&mut cells);
    state
        .vfs_files
        .retain(&mut cells.data_maps, |file| file.path != path);
    state.deleted_vfs_file_paths.push(path.into());
    let record = file_record(
        &mut cells,
        path,
        b"replacement",
        four(b"TEST"),
        four(b"DATA"),
        true,
    );
    state.vfs_files.push(&mut cells.data_maps, record);
    let record = resource_file_record(
        &mut cells,
        path,
        b"resource",
        four(b"TEST"),
        four(b"DATA"),
        true,
    );
    state.push_vfs_resource_file(&mut cells, record);
    state.publish_native_vfs_catalogue(&mut cells);
    assert_eq!(
        cells
            .managers
            .get(&state.resource_manager.cell)
            .vfs_resource_files
            .fork(&cells.resources.maps, &cells.resources.forks, path)
            .unwrap(),
        b"resource"
    );
    assert_eq!(state.vfs_files.records.len(), 1);
    assert_eq!(
        state.vfs_files.records[0]
            .data
            .as_bytes(&cells.resources.forks),
        b"replacement"
    );
    assert!(cells
        .metadata
        .get(&state.classic_vfs_metadata)
        .contains_key(&path.to_string()));
    assert_eq!(state.deleted_vfs_file_paths, [path]);
}

fn detached_manager(cells: &mut ProcessCells) -> SharedProcessResourceManager {
    let state = ProcessResourceManagerState::new(&mut cells.files.resources);
    SharedProcessResourceManager::from_value(&mut cells.files.managers, state)
}

fn attach_manager(
    cells: &mut ProcessCells,
    context: &ProcessContext,
    adapter: &mut SharedProcessResourceManager,
) {
    let target = state(cells, &context.file_system)
        .resource_manager
        .shared_handle();
    adapter.attach_resource_manager_to(
        &mut cells.files.managers,
        &mut cells.files.resources,
        &target,
    );
}

fn set_current_file(cells: &mut ProcessCells, manager: &SharedProcessResourceManager, file: i16) {
    let current = cells
        .files
        .managers
        .get(&manager.cell)
        .current_resource_file
        .shared_handle();
    current.with_mut(&mut cells.files.resources.current_files, |current_file| {
        *current_file = file
    });
}

fn current_file(cells: &ProcessCells, manager: &SharedProcessResourceManager) -> i16 {
    *cells
        .files
        .resources
        .current_files
        .get(&cells.files.managers.get(&manager.cell).current_resource_file)
}

#[test]
fn attached_resource_managers_share_state_while_clones_detach() {
    let key = (7u16, FourCharCode(b'T', b'E', b'S', b'T'), 128i16);
    let mut cells = ProcessCells::new();
    let context = new_context(&mut cells);
    let mut native = detached_file_system(&mut cells);
    let mut first = detached_manager(&mut cells);
    set_current_file(&mut cells, &first, 7);
    first.with_mut(&mut cells.files.managers, |resource_manager| {
        resource_manager
            .tables
            .resource_backing_data
            .insert(key, b"before".to_vec());
    });
    let mut second = detached_manager(&mut cells);

    attach_manager(&mut cells, &context, &mut first);
    attach_manager(&mut cells, &context, &mut second);
    context.attach_file_system(&mut cells, &mut native);
    let copy = cells
        .files
        .managers
        .get(&second.cell)
        .detached_clone(&mut cells.files.resources);
    let detached = SharedProcessResourceManager::from_value(&mut cells.files.managers, copy);
    assert_eq!(current_file(&cells, &second), 7);
    set_current_file(&mut cells, &second, 9);
    second.with_mut(&mut cells.files.managers, |resource_manager| {
        let mut bytes = resource_manager
            .tables
            .resource_backing_data
            .remove(&key)
            .unwrap();
        bytes.extend_from_slice(b"-after");
        resource_manager
            .tables
            .resource_backing_data
            .insert(key, bytes);
        resource_manager.tables.resident_resources.insert(key);
    });
    cells.file_systems.get(&native.cell).push_vfs_resource(
        &mut cells.files,
        ProcessVfsResourceRecord {
            ref_num: 7,
            ..resource_record(128, b"Shared", b"native")
        },
    );

    assert!(first.ptr_eq(&second));
    assert_eq!(current_file(&cells, &first), 9);
    assert_eq!(
        current_file(&cells, &state(&cells, &native).resource_manager),
        9
    );
    let shared = cells.files.managers.get(&first.cell);
    assert_eq!(
        shared.tables.resource_backing_data.get(&key).unwrap(),
        b"before-after"
    );
    assert!(shared.tables.resident_resources.contains(&key));
    assert_eq!(shared.vfs_resources[0].data, b"native");
    let apart = cells.files.managers.get(&detached.cell);
    assert_eq!(
        apart.tables.resource_backing_data.get(&key).unwrap(),
        b"before"
    );
    assert!(apart.tables.resident_resources.is_empty());
    assert!(apart.vfs_resources.is_empty());
    assert_eq!(current_file(&cells, &detached), 7);
}

#[test]
fn resource_policy_handle_shares_across_adapters_while_clones_detach() {
    let mut cells = ProcessCells::new();
    let context = new_context(&mut cells);
    let mut classic = detached_manager(&mut cells);
    cells
        .files
        .managers
        .get(&classic.cell)
        .policy
        .set_res_load(&mut cells.files.resources.policies, false);
    let mut native = detached_manager(&mut cells);

    attach_manager(&mut cells, &context, &mut classic);
    attach_manager(&mut cells, &context, &mut native);
    let classic_policy = cells.files.managers.get(&classic.cell).policy.shared_handle();
    let native_policy = cells.files.managers.get(&native.cell).policy.shared_handle();
    let policies = &mut cells.files.resources.policies;
    let detached = native_policy.detached_clone(policies);

    assert!(classic_policy.ptr_eq(&native_policy));
    assert!(!classic_policy.ptr_eq(&detached));
    assert!(!native_policy.res_load(policies));
    assert!(!native_policy.res_purge(policies));

    native_policy.set_res_purge(policies, true);
    assert!(classic_policy.res_purge(policies));
    assert!(!detached.res_purge(policies));

    detached.set_res_load(policies, true);
    detached.set_res_purge(policies, true);
    let detached_snapshot = detached.snapshot(policies);
    assert!(detached_snapshot.res_load());
    assert!(detached_snapshot.res_purge());

    classic_policy.reset(policies);
    assert!(classic_policy.is_pristine(policies));
    assert!(native_policy.is_pristine(policies));
    assert!(!detached.is_pristine(policies));
}

#[test]
fn process_resource_manager_encapsulation() {
    let mut cells = ProcessCells::new();
    let manager = detached_manager(&mut cells);
    assert!(manager.is_pristine(&cells.files.managers, &cells.files.resources));
    assert_eq!(current_file(&cells, &manager), 0);
    assert!(cells
        .files
        .managers
        .get(&manager.cell)
        .policy
        .is_pristine(&cells.files.resources.policies));

    let handle = manager.shared_handle();
    assert!(manager.ptr_eq(&handle));

    set_current_file(&mut cells, &manager, 12);
    assert!(!manager.is_pristine(&cells.files.managers, &cells.files.resources));
    assert_eq!(current_file(&cells, &manager), 12);
    assert_eq!(current_file(&cells, &handle), 12);

    let copy = cells
        .files
        .managers
        .get(&manager.cell)
        .detached_clone(&mut cells.files.resources);
    let detached = SharedProcessResourceManager::from_value(&mut cells.files.managers, copy);
    assert!(!manager.ptr_eq(&detached));
    assert_eq!(current_file(&cells, &detached), 12);

    set_current_file(&mut cells, &detached, 15);
    assert_eq!(current_file(&cells, &detached), 15);
    assert_eq!(current_file(&cells, &manager), 12);
}

#[test]
fn queued_deletions_leave_nothing_of_their_paths() {
    let mut cells = ProcessCells::new();
    let files = detached_file_system(&mut cells);
    for path in ["Gone", "Kept", "Taken"] {
        push_file(&mut cells, &files, path, b"data", path == "Taken");
        let record = resource_file_record(&mut cells.files, path, b"fork", 0, 0, false);
        cells
            .file_systems
            .get(&files.cell)
            .push_vfs_resource_file(&mut cells.files, record);
    }
    let locked = &cells.file_systems.get(&files.cell).classic_locked_files;
    cells.files.locked.get_mut(locked).insert("Gone".to_string());
    let system = cells.file_systems.get_mut(&files.cell);
    system.deleted_vfs_file_paths = vec!["Gone".to_string(), "Taken".to_string()];
    system.publish_native_vfs_catalogue(&mut cells.files);

    let system = state(&cells, &files);
    let manager = cells.files.managers.get(&system.resource_manager.cell);
    let data = cells.files.data_maps.get(&system.vfs_files.data_forks);
    let resources = cells
        .files
        .resources
        .maps
        .get(&manager.vfs_resource_files.resource_forks);
    let metadata = cells.files.metadata.get(&system.classic_vfs_metadata);
    let locked = cells.files.locked.get(&system.classic_locked_files);
    let forks = &cells.files.resources.forks;
    for (path, left) in [("Gone", false), ("Kept", true), ("Taken", true)] {
        let name = path.to_string();
        let recorded = system.vfs_files.records.iter().any(|file| file.path == path);
        assert_eq!(recorded, left, "{path}");
        let resources_recorded = manager
            .vfs_resource_files
            .records
            .iter()
            .any(|file| file.path == path);
        assert_eq!(resources_recorded, left, "{path}");
        assert_eq!(data.get(forks, path).is_some(), left, "{path}");
        assert_eq!(resources.get(forks, path).is_some(), left, "{path}");
        assert_eq!(metadata.contains_key(&name), left, "{path}");
    }
    assert!(locked.is_empty());
}

#[test]
fn copied_resource_files_answer_as_their_originals() {
    let mut cells = ProcessCells::new();
    let files = detached_file_system(&mut cells);
    for (path, data) in [("One", b"first"), ("Two", b"other"), ("One", b"again")] {
        let record = resource_file_record(&mut cells.files, path, data, 0, 0, false);
        cells
            .file_systems
            .get(&files.cell)
            .push_vfs_resource_file(&mut cells.files, record);
    }
    let system = cells.file_systems.get(&files.cell);
    let manager = cells.files.managers.get(&system.resource_manager.cell);
    let map = cells
        .files
        .resources
        .maps
        .get_mut(&manager.vfs_resource_files.resource_forks);
    let fork = ProcessForkBytes::from_bytes(&mut cells.files.resources.forks, b"loose".to_vec());
    map.insert("Three".to_string(), fork);

    let copy = files.detached_clone(&mut cells.file_systems, &mut cells.files);
    let manager = |files: &SharedProcessFileSystem| {
        let system = state(&cells, files);
        cells.files.managers.get(&system.resource_manager.cell)
    };
    let fork_of = |files: &SharedProcessFileSystem, path: &str| {
        cells
            .files
            .resources
            .maps
            .get(&manager(files).vfs_resource_files.resource_forks)
            .get(&cells.files.resources.forks, path)
            .cloned()
    };
    for path in ["One", "Two", "Three", "one", "Four"] {
        assert_eq!(fork_of(&copy, path), fork_of(&files, path), "{path}");
    }
    assert_eq!(fork_of(&copy, "One"), Some(b"again".to_vec()));
    assert_eq!(fork_of(&copy, "Three"), Some(b"loose".to_vec()));
    let records = &manager(&copy).vfs_resource_files.records;
    assert_eq!(records.len(), 3);
    let bytes = |index: usize| {
        let fork = records[index].raw_data.as_ref().unwrap();
        fork.as_bytes(&cells.files.resources.forks).clone()
    };
    assert_eq!(bytes(0), b"first");
    assert_eq!(bytes(1), b"other");
    assert_eq!(bytes(2), b"again");
}

#[test]
fn snapshots_leave_access_behind() {
    let mut cells = ProcessCells::new();
    let context = new_context(&mut cells);
    let files = context.file_system.shared_handle();
    push_file(&mut cells, &files, "Saved", b"data", true);
    let system = cells.file_systems.get_mut(&files.cell);
    system.next_file_ref_num = 140;
    system.deleted_vfs_file_paths.push("Lost".to_string());
    system.launched_app_path = Some("App".to_string());
    let writable = &system.writable_refnums;
    cells.files.writable.get_mut(writable).insert(130);
    let manager = cells.files.managers.get_mut(&system.resource_manager.cell);
    manager.vfs_resources.push(resource_record(1, b"name", b"data"));
    cells
        .files
        .resources
        .current_files
        .set(&manager.current_resource_file, 7);
    manager.policy.set_res_load(&mut cells.files.resources.policies, false);

    let snapshot = context.detached_vfs_snapshot(&mut cells);
    let system = state(&cells, &snapshot);
    assert_eq!(system.next_file_ref_num, 128);
    assert!(system.deleted_vfs_file_paths.is_empty());
    assert_eq!(system.launched_app_path.as_deref(), Some("App"));
    assert!(cells.files.writable.get(&system.writable_refnums).is_empty());
    assert_eq!(
        *cells
            .files
            .next_working_directories
            .get(&system.next_working_directory_ref_num),
        32
    );
    assert_eq!(
        *cells
            .files
            .application_directories
            .get(&system.application_working_directory_ref_num),
        -1
    );
    let manager = cells.files.managers.get(&system.resource_manager.cell);
    assert!(manager.is_pristine(&cells.files.resources));
    assert_eq!(data_of(&cells, &snapshot, 0), b"data");
    let data = cells.files.data_maps.get(&system.vfs_files.data_forks);
    assert_eq!(
        data.get(&cells.files.resources.forks, "Saved").unwrap(),
        b"data"
    );
}

#[test]
fn a_path_names_one_fork() {
    let mut cells = FileCells::new();
    let mut map = ProcessForkMap::new();
    let forks = &mut cells.resources.forks;
    let first = ProcessForkBytes::from_bytes(forks, b"first".to_vec());
    let second = ProcessForkBytes::from_bytes(forks, b"second".to_vec());
    map.insert("Path".to_string(), first);
    map.insert("Path".to_string(), second);
    assert_eq!(map.len(), 1);
    assert_eq!(map.get(forks, "Path").unwrap(), b"second");
    assert!(map.remove("Path").is_some());
    assert!(map.get(forks, "Path").is_none());
    assert!(map.is_empty());
}
