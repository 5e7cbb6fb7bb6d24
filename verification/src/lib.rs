//! State that belongs to one emulated Macintosh process.
//!
//! Two CPU adapters run inside a process and observe one set of managers. A
//! value that both observe lives in a cell of a [`cells::SharedCells`] store;
//! adapters hold handles to the cell, and a detached clone gets a cell of its
//! own.

pub mod adoption;
pub mod apple_events;
pub mod assoc;
pub mod block_laws;
pub mod bus;
pub mod bus_laws;
pub mod catalogue;
pub mod catalogue_laws;
pub mod cells;
pub mod classic_heap;
pub mod context_files;
pub mod context_memory;
pub mod copy_laws;
pub mod cursor;
pub mod dialog_text;
pub mod display_state;
pub mod event_laws;
pub mod events;
pub mod execution;
pub mod file_catalogue;
pub mod file_laws;
pub mod file_share;
pub mod file_system;
pub mod font_charmap;
pub mod font_faces;
pub mod font_laws;
pub mod font_layout;
pub mod font_mask;
pub mod font_names;
pub mod font_raster;
pub mod font_tables;
pub mod forks;
pub mod guest_memory;
pub mod handle_laws;
pub mod heap_blocks;
pub mod heap_laws;
pub mod import_laws;
pub mod input;
pub mod keys;
pub mod list_manager;
pub mod lists;
pub mod mapping_laws;
pub mod memory_adopt;
pub mod memory_bus;
pub mod memory_bus_model;
pub mod memory_handles;
pub mod memory_import;
pub mod memory_import_model;
pub mod memory_manager;
pub mod memory_model;
pub mod memory_native;
pub mod memory_shared;
pub mod menu_selection;
pub mod merge_laws;
pub mod native_blocks;
pub mod native_heap;
pub mod native_laws;
pub mod native_resize;
pub mod native_supply;
pub mod open_files;
pub mod process_context;
pub mod process_map;
pub mod quickdraw_state;
pub mod relocation_laws;
pub mod report_laws;
pub mod resource_manager;
pub mod scrap;
pub mod shared_memory;
pub mod shared_tables;
pub mod sharing_laws;
pub mod space_laws;
pub mod state_laws;
pub mod supply_laws;
pub mod takeover_laws;
pub mod tasks;
pub mod text;
pub mod ticks;
pub mod vfs;
pub mod vfs_resources;
pub mod vfs_snapshot;
pub mod windows;
