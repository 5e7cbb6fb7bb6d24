# systemless

The state that one emulated classic Macintosh process shares between its 68K
and PowerPC adapters, verified with Verus.

- `src/` is the library. Memory: the classic heap, the native heap, handles
  and the managers that both adapters see (`classic_heap`, `native_heap`,
  `memory_*`, `bus`, `guest_memory`), and the RAM that address spaces map
  (`shared_memory`). Files and resources: forks, catalogues,
  open files, resource maps (`forks`, `vfs*`, `catalogue`, `file_*`,
  `open_files`, `resource_manager`). Toolbox state: events, input, windows,
  cursor, scrap, lists, dialogs, tasks, Apple events, QuickDraw and display
  state. Fonts: names, layout, masks, faces and lookups (`font_*`). Process:
  `process_context` and its adoption rules (`adoption`, `execution`,
  `menu_selection`, `ticks`).
- Values that several adapters share live in `cells`; a handle names a value,
  and a detached clone is a value of its own.
- The modules named `*_laws`, `*_blocks` and `native_resize` state what holds
  of all operations together: blocks never overlap, handles keep their bytes,
  shared memory is one memory.
- `tests/` runs the library on concrete values.
- `app/` reads font files and draws their outlines for the font catalogue.
