//! What the shared tables, names and clocks of a process promise, on chosen
//! values.

use systemless::assoc::{AssocMap, KeySet};
use systemless::catalogue::{publish_native_vfs_metadata, PublishedRecord};
use systemless::cells::{SharedCells, SharedProcessValue};
use systemless::cursor::{CursorImage, SharedProcessCursorState};
use systemless::file_system::{FileCells, ProcessFileSystemState};
use systemless::forks::{ProcessForkBytes, ProcessForkMap};
use systemless::input::SharedProcessInputState;
use systemless::process_map::SharedProcessMap;
use systemless::scrap::SharedProcessScrapState;
use systemless::text::{decimal_text, equal_ignoring_case, hex_text, is_within, parent_of};
use systemless::ticks::SharedProcessTickState;
use systemless::vfs::{ProcessVfsDirectory, ProcessVfsFileRecord};
use systemless::windows::SharedProcessWindowList;

#[test]
fn shared_handles_see_one_value() {
    let mut cells = SharedCells::new();
    let first = SharedProcessValue::from_value(&mut cells, 7u32);
    let second = first.shared_handle();
    let copy = first.detached_clone(&mut cells);
    assert!(first.ptr_eq(&second));
    assert!(!first.ptr_eq(&copy));

    assert_eq!(second.replace(&mut cells, 9), 7);
    assert_eq!(*cells.get(&first), 9);
    assert_eq!(*cells.get(&copy), 7);
    assert_eq!(first.take(&mut cells), 9);
    assert_eq!(*cells.get(&second), 0);
}

#[test]
fn the_clock_never_goes_back() {
    let mut cells = SharedCells::new();
    let clock = SharedProcessTickState::from_value(&mut cells, 100);
    assert_eq!(clock.publish_tick(&mut cells, 101), 101);
    assert_eq!(clock.publish_tick(&mut cells, 100), 101);
    // Half the clock ahead is not newer; one less is.
    assert_eq!(clock.publish_tick(&mut cells, 101 + 0x8000_0000), 101);
    assert_eq!(
        clock.publish_tick(&mut cells, 101 + 0x7FFF_FFFF),
        101 + 0x7FFF_FFFF
    );
    clock.set_tick(&mut cells, u32::MAX);
    assert_eq!(clock.advance_ticks(&mut cells, 3), 2);
    assert_eq!(clock.publish_tick(&mut cells, u32::MAX), 2);
    assert_eq!(clock.read_tick_count(&mut cells, 50), 50);
    assert_eq!(clock.current_tick(&cells), 50);
}

#[test]
fn a_released_key_restores_the_map() {
    let mut cells = SharedCells::new();
    let input = SharedProcessInputState::new(&mut cells);
    input.set_key_down(&mut cells, 0x31, true);
    let before = input.key_map_snapshot(&cells);
    input.set_key_down(&mut cells, 0x7F, true);
    assert!(input.key_is_down(&cells, 0x7F));
    assert_ne!(input.key_map_snapshot(&cells), before);
    input.set_key_down(&mut cells, 0x7F, false);
    assert_eq!(input.key_map_snapshot(&cells), before);
    assert!(input.key_is_down(&cells, 0x31));
}

#[test]
fn a_reordered_window_stands_once() {
    let mut cells = SharedCells::new();
    let list = SharedProcessWindowList::from_value(&mut cells, vec![1, 2, 3, 2, 4]);
    list.reorder(&mut cells, 2, 0, true);
    assert_eq!(list.windows(&cells), [2, 1, 3, 4]);
    list.bring_to_front(&mut cells, 2);
    assert_eq!(list.windows(&cells), [2, 1, 3, 4]);
    list.reorder(&mut cells, 2, 3, false);
    assert_eq!(list.windows(&cells), [1, 3, 2, 4]);
    // Behind no window is the back, behind the last value the front.
    list.reorder(&mut cells, 1, 0, false);
    assert_eq!(list.windows(&cells), [3, 2, 4, 1]);
    list.reorder(&mut cells, 4, u32::MAX, false);
    assert_eq!(list.windows(&cells), [4, 3, 2, 1]);
    // A window that is not there sends to the back too.
    list.send_behind(&mut cells, 4, 99);
    assert_eq!(list.windows(&cells), [3, 2, 1, 4]);
}

#[test]
fn showing_undoes_hiding() {
    let mut cells = SharedCells::new();
    let arrow = CursorImage::mono([1; 32], [2; 32], 3, 4);
    let cursor = SharedProcessCursorState::new(&mut cells, arrow);
    cursor.hide_cursor(&mut cells);
    cursor.hide_cursor(&mut cells);
    assert_eq!(cursor.level(&cells), -2);
    cursor.show(&mut cells);
    assert!(!cursor.visible(&cells));
    cursor.show(&mut cells);
    assert!(cursor.visible(&cells));
    // Extra shows have no effect: one hide still hides.
    cursor.show(&mut cells);
    cursor.show(&mut cells);
    assert_eq!(cursor.level(&cells), 0);
    cursor.hide_cursor(&mut cells);
    assert!(!cursor.visible(&cells));
}

#[test]
fn scrap_offsets_lead_to_the_data() {
    let mut cells = SharedCells::new();
    let scrap = SharedProcessScrapState::new(&mut cells);
    scrap.zero(&mut cells);
    assert_eq!(scrap.summary(&cells).serialized_size, 0);
    scrap.append_entry(&mut cells, *b"PICT", vec![1]);
    scrap.append_entry(&mut cells, *b"TEXT", b"abc".to_vec());
    let bytes = scrap.serialized_entries(&cells);
    assert_eq!(bytes.len(), 22);
    assert_eq!(scrap.summary(&cells).serialized_size as usize, bytes.len());
    for flavor in [*b"PICT", *b"TEXT"] {
        let found = scrap.flavor(&cells, flavor).unwrap();
        let start = found.serialized_offset as usize;
        assert_eq!(bytes[start..start + found.data.len()], found.data[..]);
        assert_eq!(bytes[start - 8..start - 4], flavor);
    }
}

#[test]
fn names_agree_but_for_case() {
    assert!(equal_ignoring_case("System Folder", "SYSTEM folder"));
    assert!(!equal_ignoring_case("System", "Systems"));
    assert!(!equal_ignoring_case("a/b", "a:b"));
    // Only the letters of ASCII are folded.
    assert!(!equal_ignoring_case("\u{e9}", "\u{c9}"));

    assert!(is_within("Games/Maze", "games"));
    assert!(is_within("games", "Games"));
    assert!(!is_within("Gamesmaster", "Games"));
    assert!(!is_within("Games", "Games/Maze"));

    assert_eq!(parent_of("Games/Maze/Level"), "Games/Maze");
    assert_eq!(parent_of("Games"), "");
    assert_eq!(parent_of("/Games"), "");
}

#[test]
fn numbers_have_their_texts() {
    assert_eq!(hex_text(0), "0x00000000");
    assert_eq!(hex_text(0x0012_ABcd), format!("0x{:08X}", 0x0012_ABCD).as_str());
    assert_eq!(hex_text(u32::MAX), format!("0x{:08X}", u32::MAX).as_str());
    for value in [0, 7, -7, 10, 1984, i16::MAX, i16::MIN] {
        assert_eq!(decimal_text(value), format!("{}", value));
    }
}

#[test]
fn maps_hold_one_value_for_each_key() {
    let mut map: AssocMap<u32, u32> = AssocMap::new();
    assert_eq!(map.insert(1, 10), None);
    assert_eq!(map.insert(2, 20), None);
    assert_eq!(map.insert(1, 11), Some(10));
    assert_eq!(map.len(), 2);
    assert_eq!(map.get(&1), Some(&11));
    assert_eq!(map.remove(&2), Some(20));
    assert_eq!(map.remove(&2), None);
    let mut other: AssocMap<u32, u32> = AssocMap::new();
    other.insert(1, 12);
    other.insert(3, 30);
    map.absorb(&mut other);
    assert!(other.is_empty());
    assert_eq!((map.get(&1), map.get(&3)), (Some(&12), Some(&30)));

    let mut set: KeySet<u32> = KeySet::new();
    assert!(set.insert(5));
    assert!(!set.insert(5));
    assert!(set.contains(&5));
    assert!(set.remove(&5));
    assert!(!set.remove(&5));
    assert!(set.is_empty());
}

#[test]
fn process_maps_update_and_absorb() {
    let mut cells = SharedCells::new();
    let map: SharedProcessMap<u8> = SharedProcessMap::new(&mut cells);
    let other = SharedProcessMap::new(&mut cells);
    map.update(&mut cells, 1, |present| {
        assert_eq!(present, None);
        Some(4)
    });
    map.update(&mut cells, 1, |present| present.map(|value| value + 1));
    assert_eq!(map.get(&cells, 1), Some(5));
    map.update(&mut cells, 1, |_| None);
    assert!(!map.contains_key(&cells, 1));

    map.insert(&mut cells, 1, 1);
    map.insert(&mut cells, 2, 2);
    other.insert(&mut cells, 2, 3);
    map.absorb(&mut cells, &other);
    assert_eq!((map.get(&cells, 1), map.get(&cells, 2)), (Some(1), Some(3)));
    assert_eq!(other.get(&cells, 2), None);
    // A map that absorbs itself stays as it is.
    let same = map.shared_handle();
    map.absorb(&mut cells, &same);
    assert_eq!((map.get(&cells, 1), map.get(&cells, 2)), (Some(1), Some(3)));
    other.replace_from(&mut cells, &map);
    assert_eq!(other.remove(&mut cells, 1), Some(1));
    assert_eq!(map.get(&cells, 1), Some(1));
}

#[test]
fn an_inserted_fork_is_found() {
    let mut forks = SharedCells::new();
    let mut map = ProcessForkMap::new();
    let data = ProcessForkBytes::from_bytes(&mut forks, b"data".to_vec());
    let other = ProcessForkBytes::from_bytes(&mut forks, b"other".to_vec());
    assert!(map.insert("Data".to_string(), data).is_none());
    assert!(map.insert("Other".to_string(), other).is_none());
    assert_eq!(map.get(&forks, "Data").unwrap(), b"data");
    assert_eq!(map.get(&forks, "Other").unwrap(), b"other");
    assert!(map.get(&forks, "data").is_none());
    assert_eq!(map.find_ignoring_case("dATA"), Some(0));

    map.rename("DATA", "Renamed");
    assert!(!map.contains_key("Data"));
    assert_eq!(map.get(&forks, "Renamed").unwrap(), b"data");
    map.rename("Absent", "Anything");
    assert_eq!(map.len(), 2);

    map.ensure_empty(&mut forks, "Renamed".to_string());
    map.ensure_empty(&mut forks, "New".to_string());
    assert_eq!(map.get(&forks, "Renamed").unwrap(), b"data");
    assert!(map.get(&forks, "New").unwrap().is_empty());

    // A copy does not follow the original.
    let copy = map.detached_clone(&mut forks);
    map.with_entry_mut(&mut forks, "Renamed", |bytes| bytes.push(b'!'))
        .unwrap();
    assert_eq!(map.get(&forks, "Renamed").unwrap(), b"data!");
    assert_eq!(copy.get(&forks, "Renamed").unwrap(), b"data");

    map.retain(|path| path != "Other");
    assert!(!map.contains_key("Other"));
    assert!(map.remove("Renamed").is_some());
    assert!(map.remove("Renamed").is_none());
}

#[test]
fn a_missing_fork_is_made_for_its_first_change() {
    let mut maps = SharedCells::new();
    let mut forks = SharedCells::new();
    let map = SharedProcessValue::from_value(&mut maps, ProcessForkMap::new());
    let append = |bytes: &mut Vec<u8>| {
        bytes.push(b'x');
        bytes.len()
    };
    for expected in 1..=2 {
        let len = map.with_entry_or_default_mut(
            &mut maps,
            &mut forks,
            "Notes".to_string(),
            append,
        );
        assert_eq!(len, expected);
    }
    assert_eq!(maps.get(&map).len(), 1);
    assert_eq!(maps.get(&map).get(&forks, "Notes").unwrap(), b"xx");
    assert!(map
        .with_entry_mut(&maps, &mut forks, "Other", append)
        .is_none());
}

fn published(path: &str, dirty: bool) -> PublishedRecord {
    PublishedRecord {
        path: path.to_string(),
        file_type: 1,
        creator: 2,
        finder_flags: 3,
        dirty,
    }
}

#[test]
fn publishing_adds_a_path_once() {
    let mut metadata = AssocMap::new();
    let mut next_file_id = 32;
    let mut next_timestamp = 1;
    let record = published("Pilots/Ace", false);
    publish_native_vfs_metadata(
        &mut metadata,
        &mut next_file_id,
        &mut next_timestamp,
        &record,
        9,
    );
    let entry = *metadata.get(&record.path).unwrap();
    assert_eq!((entry.file_id, entry.parent_dir_id), (32, 9));
    assert_eq!((entry.created_date, entry.modified_date), (1, 1));
    assert_eq!((next_file_id, next_timestamp), (33, 2));

    // A known path keeps its number; a changed file gets a new date.
    publish_native_vfs_metadata(
        &mut metadata,
        &mut next_file_id,
        &mut next_timestamp,
        &published("Pilots/Ace", true),
        9,
    );
    let changed = *metadata.get(&record.path).unwrap();
    assert_eq!(changed.file_id, 32);
    assert_eq!(changed.created_date, 1);
    assert!(changed.modified_date >= entry.modified_date);
    assert_eq!(next_file_id, 33);
    assert_eq!(metadata.len(), 1);
}

#[test]
fn a_removed_path_takes_what_lies_below() {
    let mut cells = FileCells::new();
    let mut state = ProcessFileSystemState::new(&mut cells);
    for path in ["Games/Maze", "Games/Maze/Level", "Gamesmaster", "Letters"] {
        let data = ProcessForkBytes::from_bytes(&mut cells.resources.forks, b"x".to_vec());
        state.vfs_files.push(
            &mut cells.data_maps,
            ProcessVfsFileRecord {
                path: path.to_string(),
                data,
                creator: 0,
                file_type: 0,
                finder_flags: 0,
                dirty: false,
            },
        );
    }
    cells
        .directories
        .get_mut(&state.vfs_directories)
        .push(ProcessVfsDirectory {
            dir_id: 16,
            parent_dir_id: 2,
            path: "GAMES".to_string(),
            creator: 0,
            file_type: 0,
            finder_flags: 0,
            dirty: false,
        });
    let directories = cells.directories.get(&state.vfs_directories).len();
    state.remove_classic_vfs_path(&mut cells, "games");
    let left: Vec<&str> = state
        .vfs_files
        .records
        .iter()
        .map(|record| record.path.as_str())
        .collect();
    assert_eq!(left, ["Gamesmaster", "Letters"]);
    assert_eq!(
        cells.directories.get(&state.vfs_directories).len(),
        directories - 1
    );
}

#[test]
fn a_published_deletion_forgets_the_path() {
    let mut cells = FileCells::new();
    let mut state = ProcessFileSystemState::new(&mut cells);
    let path = "Pilots/Ace".to_string();
    let data = ProcessForkBytes::from_bytes(&mut cells.resources.forks, b"x".to_vec());
    state.vfs_files.push(
        &mut cells.data_maps,
        ProcessVfsFileRecord {
            path: path.clone(),
            data,
            creator: 0,
            file_type: 0,
            finder_flags: 0,
            dirty: false,
        },
    );
    state.publish_native_vfs_catalogue(&mut cells);
    assert!(cells
        .metadata
        .get(&state.classic_vfs_metadata)
        .contains_key(&path));
    state.deleted_vfs_file_paths.push(path.clone());
    state.publish_native_vfs_catalogue(&mut cells);
    assert!(state.vfs_files.records.is_empty());
    assert!(!cells
        .metadata
        .get(&state.classic_vfs_metadata)
        .contains_key(&path));
}

#[test]
fn a_renamed_file_keeps_its_record() {
    let mut cells = FileCells::new();
    let mut state = ProcessFileSystemState::new(&mut cells);
    let data = ProcessForkBytes::from_bytes(&mut cells.resources.forks, b"x".to_vec());
    state.vfs_files.push(
        &mut cells.data_maps,
        ProcessVfsFileRecord {
            path: "Old Name".to_string(),
            data,
            creator: 1,
            file_type: 2,
            finder_flags: 0,
            dirty: false,
        },
    );
    assert!(!state
        .vfs_files
        .rename_path(&mut cells.data_maps, "Absent", "New Name"));
    assert!(state
        .vfs_files
        .rename_path(&mut cells.data_maps, "Old Name", "New Name"));
    assert_eq!(state.vfs_files.records[0].path, "New Name");
    assert_eq!(state.vfs_files.records[0].creator, 1);
    assert!(!state
        .vfs_files
        .rename_path(&mut cells.data_maps, "Old Name", "Another"));
}
