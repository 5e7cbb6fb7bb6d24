//! The cursor that the adapters of a process share.

use crate::cells::{SharedCells, SharedProcessValue};
use vstd::prelude::*;

verus! {

/// A one-bit cursor: its pixels, its mask and its hot spot.
#[derive(Clone, Copy)]
pub struct CursorImage {
    pub data: [u8; 32],
    pub mask: [u8; 32],
    pub hot_v: i16,
    pub hot_h: i16,
}

fn same_bits(a: &[u8; 32], b: &[u8; 32]) -> (same: bool)
    ensures
        same == (*a == *b),
{
    let mut i: usize = 0;
    while i < 32
        invariant
            i <= 32,
            forall|k: int| 0 <= k < i ==> a@[k] == b@[k],
        decreases 32 - i,
    {
        if a[i] != b[i] {
            assert(a@[i as int] != b@[i as int]);
            return false;
        }
        i += 1;
    }
    assert(a@ =~= b@);
    assert(*a =~= *b);
    true
}

impl CursorImage {
    pub fn mono(data: [u8; 32], mask: [u8; 32], hot_v: i16, hot_h: i16) -> (image: Self)
        ensures
            image == (CursorImage { data, mask, hot_v, hot_h }),
    {
        CursorImage { data, mask, hot_v, hot_h }
    }

    /// Pixels, mask and hot spot.
    pub fn mono_parts(&self) -> (parts: ([u8; 32], [u8; 32], i16, i16))
        ensures
            parts == (self.data, self.mask, self.hot_v, self.hot_h),
    {
        (self.data, self.mask, self.hot_v, self.hot_h)
    }

    pub fn same_image(&self, other: &CursorImage) -> (same: bool)
        ensures
            same == (*self == *other),
    {
        same_bits(&self.data, &other.data) && same_bits(&self.mask, &other.mask) && self.hot_v
            == other.hot_v && self.hot_h == other.hot_h
    }
}

/// The cursor of one process. It shows where the level is zero; each hide
/// lowers the level and each show raises it back towards zero.
#[derive(Clone, Copy)]
pub struct ProcessCursorState {
    pub image: Option<CursorImage>,
    pub level: i16,
}

/// The level after one more hide.
pub open spec fn hidden_level(level: i16) -> i16 {
    if level == i16::MIN {
        level
    } else {
        (level - 1) as i16
    }
}

/// The level after one more show.
pub open spec fn shown_level(level: i16) -> i16 {
    if level < 0 {
        (level + 1) as i16
    } else {
        level
    }
}

impl ProcessCursorState {
    /// The visible arrow of a new process.
    pub open spec fn pristine(&self, arrow: CursorImage) -> bool {
        self.image == Some(arrow) && self.level == 0
    }

    pub fn new(arrow: CursorImage) -> (state: Self)
        ensures
            state.image == Some(arrow),
            state.level == 0,
    {
        ProcessCursorState { image: Some(arrow), level: 0 }
    }

    pub fn is_pristine(&self, arrow: &CursorImage) -> (pristine: bool)
        ensures
            pristine == self.pristine(*arrow),
    {
        match &self.image {
            Some(image) => self.level == 0 && image.same_image(arrow),
            None => false,
        }
    }

    pub fn visible(&self) -> (visible: bool)
        ensures
            visible == (self.level == 0),
    {
        self.level == 0
    }

    /// Show the arrow.
    pub fn init(&mut self, arrow: CursorImage)
        ensures
            *final(self) == (ProcessCursorState { image: Some(arrow), level: 0 }),
    {
        *self = ProcessCursorState::new(arrow);
    }

    pub fn install(&mut self, image: CursorImage)
        ensures
            *final(self) == (ProcessCursorState { image: Some(image), level: old(self).level }),
    {
        self.image = Some(image);
    }

    pub fn hide_cursor(&mut self)
        ensures
            *final(self) == (ProcessCursorState {
                image: old(self).image,
                level: hidden_level(old(self).level),
            }),
    {
        if self.level > i16::MIN {
            self.level = self.level - 1;
        }
    }

    pub fn show(&mut self)
        ensures
            *final(self) == (ProcessCursorState {
                image: old(self).image,
                level: shown_level(old(self).level),
            }),
    {
        if self.level < 0 {
            self.level = self.level + 1;
        }
    }
}

/// The cells after the handle of `own` has joined the cell `process`: a
/// pristine process cursor takes the other's over, which starts anew.
pub open spec fn cursors_joined(
    cells: Seq<ProcessCursorState>,
    own: int,
    process: int,
    arrow: CursorImage,
) -> Seq<ProcessCursorState> {
    if own != process && cells[process].pristine(arrow) {
        cells.update(process, cells[own]).update(
            own,
            ProcessCursorState { image: Some(arrow), level: 0 },
        )
    } else {
        cells
    }
}

/// The cursor of a process.
pub struct SharedProcessCursorState {
    pub cell: SharedProcessValue<ProcessCursorState>,
}

impl SharedProcessCursorState {
    pub open spec fn id(&self) -> int {
        self.cell.id()
    }

    /// The handle names a cell of the store.
    pub open spec fn valid(&self, cells: &SharedCells<ProcessCursorState>) -> bool {
        self.cell.valid(cells@)
    }

    /// The cursor that the handle observes.
    pub open spec fn state(&self, cells: &SharedCells<ProcessCursorState>) -> ProcessCursorState {
        cells@[self.cell.id()]
    }

    /// A handle to a visible arrow of its own.
    pub fn new(cells: &mut SharedCells<ProcessCursorState>, arrow: CursorImage) -> (handle: Self)
        ensures
            handle.id() == old(cells)@.len(),
            final(cells)@ == old(cells)@.push(
                ProcessCursorState { image: Some(arrow), level: 0 },
            ),
    {
        SharedProcessCursorState { cell: cells.allocate(ProcessCursorState::new(arrow)) }
    }

    /// Another handle to the same cursor.
    pub fn shared_handle(&self) -> (handle: Self)
        ensures
            handle.id() == self.id(),
    {
        SharedProcessCursorState { cell: self.cell.shared_handle() }
    }

    /// Whether two handles name one cursor.
    pub fn ptr_eq(&self, other: &Self) -> (same: bool)
        ensures
            same == (self.id() == other.id()),
    {
        self.cell.ptr_eq(&other.cell)
    }

    /// A copy in a cell of its own.
    pub fn detached_clone(&self, cells: &mut SharedCells<ProcessCursorState>) -> (copy: Self)
        requires
            self.valid(old(cells)),
        ensures
            copy.id() == old(cells)@.len(),
            final(cells)@ == old(cells)@.push(self.state(old(cells))),
    {
        let state = *cells.get(&self.cell);
        SharedProcessCursorState { cell: cells.allocate(state) }
    }

    /// Share the process's cursor. At most one of the two may have left the
    /// pristine state.
    pub fn attach_to(
        &mut self,
        cells: &mut SharedCells<ProcessCursorState>,
        process_state: &Self,
        arrow: &CursorImage,
    )
        requires
            old(self).valid(old(cells)),
            process_state.valid(old(cells)),
            old(self).id() == process_state.id() || old(self).state(old(cells)).pristine(*arrow)
                || process_state.state(old(cells)).pristine(*arrow),
        ensures
            final(self).id() == process_state.id(),
            final(cells)@ == cursors_joined(
                old(cells)@,
                old(self).id(),
                process_state.id(),
                *arrow,
            ),
    {
        if self.ptr_eq(process_state) {
            return;
        }
        if cells.get(&process_state.cell).is_pristine(arrow) {
            let state = *cells.get(&self.cell);
            cells.set(&process_state.cell, state);
            cells.set(&self.cell, ProcessCursorState::new(*arrow));
        }
        *self = process_state.shared_handle();
    }

    /// The image of a visible cursor.
    pub fn visible_image(&self, cells: &SharedCells<ProcessCursorState>) -> (image: Option<CursorImage>)
        requires
            self.valid(cells),
        ensures
            image == (if self.state(cells).level == 0 {
                self.state(cells).image
            } else {
                None
            }),
    {
        let state = cells.get(&self.cell);
        if state.visible() {
            state.image
        } else {
            None
        }
    }

    /// The parts of the image, visible or not.
    pub fn mono_parts(&self, cells: &SharedCells<ProcessCursorState>) -> (parts: Option<
        ([u8; 32], [u8; 32], i16, i16),
    >)
        requires
            self.valid(cells),
        ensures
            parts == (match self.state(cells).image {
                Some(image) => Some((image.data, image.mask, image.hot_v, image.hot_h)),
                None => None,
            }),
    {
        match &cells.get(&self.cell).image {
            Some(image) => Some(image.mono_parts()),
            None => None,
        }
    }

    pub fn visible(&self, cells: &SharedCells<ProcessCursorState>) -> (result: bool)
        requires
            self.valid(cells),
        ensures
            result == (self.state(cells).level == 0),
    {
        cells.get(&self.cell).visible()
    }

    pub fn level(&self, cells: &SharedCells<ProcessCursorState>) -> (result: i16)
        requires
            self.valid(cells),
        ensures
            result == self.state(cells).level,
    {
        cells.get(&self.cell).level
    }

    pub fn has_image(&self, cells: &SharedCells<ProcessCursorState>) -> (result: bool)
        requires
            self.valid(cells),
        ensures
            result == (self.state(cells).image is Some),
    {
        cells.get(&self.cell).image.is_some()
    }

    /// Show the arrow.
    pub fn init(&self, cells: &mut SharedCells<ProcessCursorState>, arrow: CursorImage)
        requires
            self.valid(old(cells)),
        ensures
            final(cells)@ == old(cells)@.update(self.id(), (ProcessCursorState { image: Some(arrow), level: 0 })),
    {
        cells.get_mut(&self.cell).init(arrow);
    }

    pub fn install(&self, cells: &mut SharedCells<ProcessCursorState>, image: CursorImage)
        requires
            self.valid(old(cells)),
        ensures
            final(cells)@ == old(cells)@.update(self.id(), (ProcessCursorState { image: Some(image), ..self.state(old(cells)) })),
    {
        cells.get_mut(&self.cell).install(image);
    }

    pub fn hide_cursor(&self, cells: &mut SharedCells<ProcessCursorState>)
        requires
            self.valid(old(cells)),
        ensures
            final(cells)@ == old(cells)@.update(self.id(), (ProcessCursorState {
                    level: hidden_level(self.state(old(cells)).level),
                    ..self.state(old(cells))
                })),
    {
        cells.get_mut(&self.cell).hide_cursor();
    }

    pub fn show(&self, cells: &mut SharedCells<ProcessCursorState>)
        requires
            self.valid(old(cells)),
        ensures
            final(cells)@ == old(cells)@.update(self.id(), (ProcessCursorState {
                    level: shown_level(self.state(old(cells)).level),
                    ..self.state(old(cells))
                })),
    {
        cells.get_mut(&self.cell).show();
    }

}

/// Each show undoes one hide of a cursor that is not above its resting level,
/// unless the level had reached its lowest value.
pub proof fn show_undoes_hide(level: i16)
    requires
        i16::MIN < level <= 0,
    ensures
        shown_level(hidden_level(level)) == level,
{
}

/// Showing never brings a cursor above its resting level, so shows without a
/// hide before them have no effect.
pub proof fn extra_shows_have_no_effect(level: i16)
    requires
        level <= 0,
    ensures
        shown_level(level) <= 0,
        shown_level(0) == 0,
{
}

} // verus!
