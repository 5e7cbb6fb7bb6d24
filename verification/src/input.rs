//! Mouse and keyboard state that the adapters of a process share.

use crate::cells::{CellDefault, CellValue, SharedCells, SharedProcessValue};
use vstd::prelude::*;

verus! {

/// A key that repeats while it is held.
#[derive(Clone, Copy)]
pub struct ProcessKeyRepeatState {
    pub key_code: u8,
    pub char_code: u8,
    pub next_tick: u32,
}

impl ProcessKeyRepeatState {
    pub fn key_code(self) -> (code: u8)
        ensures
            code == self.key_code,
    {
        self.key_code
    }

    pub fn next_tick(self) -> (tick: u32)
        ensures
            tick == self.next_tick,
    {
        self.next_tick
    }

    /// The event message: the key code above the character code.
    pub fn message(self) -> (message: u32)
        ensures
            message == self.key_code * 256 + self.char_code,
    {
        let key: u32 = self.key_code as u32;
        let character: u32 = self.char_code as u32;
        assert((key << 8) | character == key * 256 + character) by (bit_vector)
            requires
                key < 256,
                character < 256,
        ;
        (key << 8) | character
    }
}

/// Mouse and keyboard of one process.
#[derive(Clone, Copy)]
pub struct ProcessInputState {
    pub mouse_pos: (i16, i16),
    pub mouse_button: bool,
    pub key_map: [u8; 16],
    pub caps_lock_physically_pressed: bool,
    pub key_repeat: Option<ProcessKeyRepeatState>,
}

/// Whether the bit of a key is set in a key map.
pub open spec fn key_pressed(key_map: Seq<u8>, key_code: u8) -> bool {
    key_map[(key_code / 8) as int] & (1u8 << (key_code % 8)) != 0
}

/// No key of a map is down.
pub open spec fn no_key_down(key_map: Seq<u8>) -> bool {
    forall|i: int| 0 <= i < key_map.len() ==> (#[trigger] key_map[i]) == 0
}

/// `after` is `before` with one key set up or down.
pub open spec fn key_changed(before: Seq<u8>, after: Seq<u8>, key_code: u8, down: bool) -> bool {
    &&& after.len() == before.len()
    &&& forall|other: u8|
        #![trigger key_pressed(after, other)]
        other < 128 ==> key_pressed(after, other) == (if other == key_code {
            down
        } else {
            key_pressed(before, other)
        })
}

proof fn lemma_key_bits(byte: u8, own: u8, other: u8)
    requires
        own < 8,
        other < 8,
    ensures
        (byte | (1u8 << own)) & (1u8 << own) != 0,
        (byte & !(1u8 << own)) & (1u8 << own) == 0,
        own != other ==> ((byte | (1u8 << own)) & (1u8 << other) != 0) == (byte & (1u8 << other)
            != 0),
        own != other ==> ((byte & !(1u8 << own)) & (1u8 << other) != 0) == (byte & (1u8 << other)
            != 0),
{
    assert((byte | (1u8 << own)) & (1u8 << own) != 0) by (bit_vector)
        requires
            own < 8,
    ;
    assert((byte & !(1u8 << own)) & (1u8 << own) == 0) by (bit_vector);
    if own != other {
        assert(((byte | (1u8 << own)) & (1u8 << other) != 0) == (byte & (1u8 << other) != 0))
            by (bit_vector)
            requires
                own < 8,
                other < 8,
                own != other,
        ;
        assert(((byte & !(1u8 << own)) & (1u8 << other) != 0) == (byte & (1u8 << other) != 0))
            by (bit_vector)
            requires
                own < 8,
                other < 8,
                own != other,
        ;
    }
}

impl ProcessInputState {
    /// Nothing pressed, nothing moved, no key repeating.
    pub open spec fn pristine(&self) -> bool {
        &&& self.mouse_pos == (0i16, 0i16)
        &&& !self.mouse_button
        &&& no_key_down(self.key_map@)
        &&& !self.caps_lock_physically_pressed
        &&& self.key_repeat is None
    }

    pub fn new() -> (state: Self)
        ensures
            state.pristine(),
    {
        ProcessInputState {
            mouse_pos: (0, 0),
            mouse_button: false,
            key_map: [0u8; 16],
            caps_lock_physically_pressed: false,
            key_repeat: None,
        }
    }

    pub fn is_pristine(&self) -> (pristine: bool)
        ensures
            pristine == self.pristine(),
    {
        let mut i: usize = 0;
        while i < 16
            invariant
                i <= 16,
                forall|k: int| 0 <= k < i ==> (#[trigger] self.key_map@[k]) == 0,
            decreases 16 - i,
        {
            if self.key_map[i] != 0 {
                assert(self.key_map@[i as int] != 0);
                return false;
            }
            i += 1;
        }
        self.mouse_pos.0 == 0 && self.mouse_pos.1 == 0 && !self.mouse_button
            && !self.caps_lock_physically_pressed && self.key_repeat.is_none()
    }

    /// Whether a key is down; codes past the key map are not.
    pub fn key_is_down(&self, key_code: u8) -> (down: bool)
        ensures
            down == (key_code < 128 && key_pressed(self.key_map@, key_code)),
    {
        if key_code >= 128 {
            return false;
        }
        let byte_index: usize = (key_code / 8) as usize;
        let mask: u8 = 1u8 << (key_code % 8);
        (self.key_map[byte_index] & mask) != 0
    }

    /// Set a key up or down; codes past the key map have no effect.
    pub fn set_key_down(&mut self, key_code: u8, down: bool)
        ensures
            key_code < 128 ==> key_changed(old(self).key_map@, final(self).key_map@, key_code, down),
            key_code >= 128 ==> final(self).key_map == old(self).key_map,
            *final(self) == (ProcessInputState { key_map: final(self).key_map, ..*old(self) }),
    {
        if key_code >= 128 {
            return;
        }
        let byte_index: usize = (key_code / 8) as usize;
        let byte: u8 = self.key_map[byte_index];
        let mask: u8 = 1u8 << (key_code % 8);
        if down {
            self.key_map[byte_index] = byte | mask;
        } else {
            self.key_map[byte_index] = byte & !mask;
        }
        proof {
            let before = old(self).key_map@;
            let after = self.key_map@;
            assert forall|other: u8| #![trigger key_pressed(after, other)] other < 128 implies
                key_pressed(after, other) == (if other == key_code {
                down
            } else {
                key_pressed(before, other)
            }) by {
                lemma_key_bits(byte, key_code % 8, other % 8);
                if other / 8 == key_code / 8 && other % 8 == key_code % 8 {
                    assert(other == key_code);
                }
            }
        }
    }
}

impl CellDefault for ProcessInputState {
    open spec fn is_default(&self) -> bool {
        self.pristine()
    }

    fn default_value() -> (value: Self) {
        ProcessInputState::new()
    }
}

impl CellValue for ProcessInputState {
    open spec fn same(&self, other: &Self) -> bool {
        *self == *other
    }

    fn copy_value(&self) -> (copy: Self) {
        *self
    }
}

/// The input state of a process.
pub struct SharedProcessInputState {
    pub cell: SharedProcessValue<ProcessInputState>,
}

impl SharedProcessInputState {
    pub open spec fn id(&self) -> int {
        self.cell.id()
    }

    /// The handle names a cell of the store.
    pub open spec fn valid(&self, cells: &SharedCells<ProcessInputState>) -> bool {
        self.cell.valid(cells@)
    }

    /// What the cell holds.
    pub open spec fn value(&self, cells: &SharedCells<ProcessInputState>) -> ProcessInputState {
        cells@[self.cell.id()]
    }

    /// A value that an attachment may replace.
    pub open spec fn pristine(value: ProcessInputState) -> bool {
        value.pristine()
    }

    pub fn from_value(cells: &mut SharedCells<ProcessInputState>, value: ProcessInputState) -> (handle: Self)
        ensures
            handle.id() == old(cells)@.len(),
            final(cells)@ == old(cells)@.push(value),
    {
        SharedProcessInputState { cell: cells.allocate(value) }
    }

    /// A handle to a pristine state of its own.
    pub fn new(cells: &mut SharedCells<ProcessInputState>) -> (handle: Self)
        ensures
            handle.id() == old(cells)@.len(),
            crate::cells::cells_extend(old(cells)@, final(cells)@),
            final(cells)@.len() == old(cells)@.len() + 1,
            handle.value(final(cells)).pristine(),
    {
        SharedProcessInputState { cell: cells.allocate(ProcessInputState::new()) }
    }

    /// Another handle to the same cell.
    pub fn shared_handle(&self) -> (handle: Self)
        ensures
            handle.id() == self.id(),
    {
        SharedProcessInputState { cell: self.cell.shared_handle() }
    }

    /// Whether two handles name one cell.
    pub fn ptr_eq(&self, other: &Self) -> (same: bool)
        ensures
            same == (self.id() == other.id()),
    {
        self.cell.ptr_eq(&other.cell)
    }

    /// A copy in a cell of its own.
    pub fn detached_clone(&self, cells: &mut SharedCells<ProcessInputState>) -> (copy: Self)
        requires
            self.valid(old(cells)),
        ensures
            copy.id() == old(cells)@.len(),
            crate::cells::cells_extend(old(cells)@, final(cells)@),
            final(cells)@.len() == old(cells)@.len() + 1,
            self.value(old(cells)).same(&final(cells)@[copy.id()]),
    {
        SharedProcessInputState { cell: self.cell.detached_clone(cells) }
    }

    /// Share the process's cell, which takes this one's contents over where
    /// it has none. At most one of the two may have contents.
    pub fn attach_to(&mut self, cells: &mut SharedCells<ProcessInputState>, process_input: &Self)
        requires
            old(self).valid(old(cells)),
            process_input.valid(old(cells)),
            crate::cells::attachable(
                old(cells)@,
                old(self).id(),
                process_input.id(),
                |value: ProcessInputState| SharedProcessInputState::pristine(value),
            ),
        ensures
            final(self).id() == process_input.id(),
            crate::cells::joined(
                old(cells)@,
                final(cells)@,
                old(self).id(),
                process_input.id(),
                SharedProcessInputState::pristine(process_input.value(old(cells))),
            ),
    {
        let is_pristine = |value: &ProcessInputState| -> (pristine: bool)
            ensures
                pristine == SharedProcessInputState::pristine(*value),
            { value.is_pristine() };
        self.cell.attach_to(cells, &process_input.cell, is_pristine);
    }

    pub fn is_pristine(&self, cells: &SharedCells<ProcessInputState>) -> (pristine: bool)
        requires
            self.valid(cells),
        ensures
            pristine == SharedProcessInputState::pristine(self.value(cells)),
    {
        let value = cells.get(&self.cell);
        value.is_pristine()
    }
}

impl SharedProcessInputState {
    pub fn mouse_position(&self, cells: &SharedCells<ProcessInputState>) -> (result: (i16, i16))
        requires
            self.valid(cells),
        ensures
            result == self.value(cells).mouse_pos,
    {
        cells.get(&self.cell).mouse_pos
    }

    pub fn set_mouse_position(&self, cells: &mut SharedCells<ProcessInputState>, position: (i16, i16))
        requires
            self.valid(old(cells)),
        ensures
            final(cells)@ == old(cells)@.update(self.id(), (ProcessInputState { mouse_pos: position, ..self.value(old(cells)) })),
    {
        cells.get_mut(&self.cell).mouse_pos = position;
    }

    pub fn mouse_button_pressed(&self, cells: &SharedCells<ProcessInputState>) -> (result: bool)
        requires
            self.valid(cells),
        ensures
            result == self.value(cells).mouse_button,
    {
        cells.get(&self.cell).mouse_button
    }

    /// Position and button of one moment.
    pub fn mouse_state_snapshot(&self, cells: &SharedCells<ProcessInputState>) -> (result: ((i16, i16), bool))
        requires
            self.valid(cells),
        ensures
            result == (self.value(cells).mouse_pos, self.value(cells).mouse_button),
    {
        let state = cells.get(&self.cell);
        (state.mouse_pos, state.mouse_button)
    }

    pub fn set_mouse_button_pressed(&self, cells: &mut SharedCells<ProcessInputState>, pressed: bool)
        requires
            self.valid(old(cells)),
        ensures
            final(cells)@ == old(cells)@.update(self.id(), (ProcessInputState { mouse_button: pressed, ..self.value(old(cells)) })),
    {
        cells.get_mut(&self.cell).mouse_button = pressed;
    }

    pub fn set_mouse_state(&self, cells: &mut SharedCells<ProcessInputState>, position: (i16, i16), pressed: bool)
        requires
            self.valid(old(cells)),
        ensures
            final(cells)@ == old(cells)@.update(self.id(), (ProcessInputState { mouse_pos: position, mouse_button: pressed, ..self.value(old(cells)) })),
    {
        let mut state = *cells.get(&self.cell);
        state.mouse_pos = position;
        state.mouse_button = pressed;
        cells.set(&self.cell, state);
    }

    pub fn key_map_snapshot(&self, cells: &SharedCells<ProcessInputState>) -> (result: [u8; 16])
        requires
            self.valid(cells),
        ensures
            result == self.value(cells).key_map,
    {
        cells.get(&self.cell).key_map
    }

    pub fn key_is_down(&self, cells: &SharedCells<ProcessInputState>, key_code: u8) -> (result: bool)
        requires
            self.valid(cells),
        ensures
            result == (key_code < 128 && key_pressed(self.value(cells).key_map@, key_code)),
    {
        cells.get(&self.cell).key_is_down(key_code)
    }

    /// Set a key up or down; codes past the key map have no effect.
    pub fn set_key_down(&self, cells: &mut SharedCells<ProcessInputState>, key_code: u8, down: bool)
        requires
            self.valid(old(cells)),
        ensures
            final(cells)@ == old(cells)@.update(
                self.id(),
                (ProcessInputState {
                    key_map: self.value(final(cells)).key_map,
                    ..self.value(old(cells))
                }),
            ),
            key_code < 128 ==> key_changed(
                self.value(old(cells)).key_map@,
                self.value(final(cells)).key_map@,
                key_code,
                down,
            ),
            key_code >= 128 ==> self.value(final(cells)).key_map == self.value(old(cells)).key_map,
    {
        cells.get_mut(&self.cell).set_key_down(key_code, down);
    }

    pub fn set_key_map_snapshot(&self, cells: &mut SharedCells<ProcessInputState>, key_map: [u8; 16])
        requires
            self.valid(old(cells)),
        ensures
            final(cells)@ == old(cells)@.update(self.id(), (ProcessInputState { key_map, ..self.value(old(cells)) })),
    {
        cells.get_mut(&self.cell).key_map = key_map;
    }

    pub fn caps_lock_physically_pressed(&self, cells: &SharedCells<ProcessInputState>) -> (result: bool)
        requires
            self.valid(cells),
        ensures
            result == self.value(cells).caps_lock_physically_pressed,
    {
        cells.get(&self.cell).caps_lock_physically_pressed
    }

    /// Note the key as held; the result tells whether it was not held before.
    pub fn press_caps_lock(&self, cells: &mut SharedCells<ProcessInputState>) -> (result: bool)
        requires
            self.valid(old(cells)),
        ensures
            final(cells)@ == old(cells)@.update(self.id(), (ProcessInputState { caps_lock_physically_pressed: true, ..self.value(old(cells)) })),
            result == !self.value(old(cells)).caps_lock_physically_pressed,
    {
        let mut state = *cells.get(&self.cell);
        let first = !state.caps_lock_physically_pressed;
        state.caps_lock_physically_pressed = true;
        cells.set(&self.cell, state);
        first
    }

    pub fn release_caps_lock(&self, cells: &mut SharedCells<ProcessInputState>)
        requires
            self.valid(old(cells)),
        ensures
            final(cells)@ == old(cells)@.update(self.id(), (ProcessInputState { caps_lock_physically_pressed: false, ..self.value(old(cells)) })),
    {
        cells.get_mut(&self.cell).caps_lock_physically_pressed = false;
    }

    pub fn key_repeat(&self, cells: &SharedCells<ProcessInputState>) -> (result: Option<ProcessKeyRepeatState>)
        requires
            self.valid(cells),
        ensures
            result == self.value(cells).key_repeat,
    {
        cells.get(&self.cell).key_repeat
    }

    pub fn has_key_repeat(&self, cells: &SharedCells<ProcessInputState>) -> (result: bool)
        requires
            self.valid(cells),
        ensures
            result == (self.value(cells).key_repeat is Some),
    {
        cells.get(&self.cell).key_repeat.is_some()
    }

    pub fn arm_key_repeat(&self, cells: &mut SharedCells<ProcessInputState>, key_code: u8, char_code: u8, next_tick: u32)
        requires
            self.valid(old(cells)),
        ensures
            final(cells)@ == old(cells)@.update(self.id(), (ProcessInputState { key_repeat: Some(ProcessKeyRepeatState { key_code, char_code, next_tick }), ..self.value(old(cells)) })),
    {
        cells.get_mut(&self.cell).key_repeat = Some(
            ProcessKeyRepeatState { key_code, char_code, next_tick },
        );
    }

    /// Set the next repetition of the key that repeats, if one does.
    pub fn advance_key_repeat(&self, cells: &mut SharedCells<ProcessInputState>, next_tick: u32)
        requires
            self.valid(old(cells)),
        ensures
            final(cells)@ == old(cells)@.update(self.id(), (ProcessInputState { key_repeat: (match self.value(old(cells)).key_repeat {
                    Some(repeat) => Some(ProcessKeyRepeatState { next_tick, ..repeat }),
                    None => None,
                }), ..self.value(old(cells)) })),
    {
        let mut state = *cells.get(&self.cell);
        if let Some(repeat) = state.key_repeat {
            state.key_repeat = Some(ProcessKeyRepeatState { next_tick, ..repeat });
        }
        cells.set(&self.cell, state);
    }

    pub fn clear_key_repeat(&self, cells: &mut SharedCells<ProcessInputState>)
        requires
            self.valid(old(cells)),
        ensures
            final(cells)@ == old(cells)@.update(self.id(), (ProcessInputState { key_repeat: None, ..self.value(old(cells)) })),
    {
        cells.get_mut(&self.cell).key_repeat = None;
    }

    /// Stop the repetition of one key.
    pub fn clear_key_repeat_for(&self, cells: &mut SharedCells<ProcessInputState>, key_code: u8)
        requires
            self.valid(old(cells)),
        ensures
            final(cells)@ == old(cells)@.update(self.id(), (ProcessInputState { key_repeat: (match self.value(old(cells)).key_repeat {
                    Some(repeat) => if repeat.key_code == key_code {
                        None
                    } else {
                        Some(repeat)
                    },
                    None => None,
                }), ..self.value(old(cells)) })),
    {
        let mut state = *cells.get(&self.cell);
        if let Some(repeat) = state.key_repeat {
            if repeat.key_code == key_code {
                state.key_repeat = None;
            }
        }
        cells.set(&self.cell, state);
    }

}

/// A key that is pressed and released again leaves every key of the map as
/// it was, where it was up before.
pub proof fn released_key_restores_the_map(before: Seq<u8>, held: Seq<u8>, after: Seq<u8>, key_code: u8)
    requires
        before.len() == 16,
        key_code < 128,
        !key_pressed(before, key_code),
        key_changed(before, held, key_code, true),
        key_changed(held, after, key_code, false),
    ensures
        forall|other: u8|
            #![trigger key_pressed(after, other)]
            other < 128 ==> key_pressed(after, other) == key_pressed(before, other),
{
    assert forall|other: u8| #![trigger key_pressed(after, other)] other < 128 implies key_pressed(
        after,
        other,
    ) == key_pressed(before, other) by {
        assert(key_pressed(held, other) == (if other == key_code {
            true
        } else {
            key_pressed(before, other)
        }));
    }
}

/// The key map has a bit for each key: eight keys to a byte, the lowest bit
/// first.
pub proof fn key_map_has_a_bit_for_each_key(key_map: Seq<u8>, byte: u8, bit: u8)
    requires
        byte < 16,
        bit < 8,
    ensures
        key_pressed(key_map, (8 * byte + bit) as u8) <==> (key_map[byte as int] >> bit) & 1 == 1,
{
    let bits = key_map[byte as int];
    assert(bits & (1u8 << bit) != 0 <==> (bits >> bit) & 1 == 1) by (bit_vector)
        requires
            bit < 8,
    ;
}

} // verus!
