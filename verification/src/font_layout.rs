//! Which outlines stand for the classic families, and the classic layout that
//! they keep.

use crate::font_names::{
    FONT_APPLICATION, FONT_CAIRO, FONT_CHICAGO, FONT_COURIER, FONT_GENEVA, FONT_HELVETICA,
    FONT_LONDON, FONT_MONACO, FONT_NEWYORK, FONT_PALATINO, FONT_TIMES, FONT_VENICE,
};
use vstd::prelude::*;

verus! {

/// The first character of a face.
pub const FIRST_ASCII_CODE: u8 = 0x20;

/// The last character of a face.
pub const LAST_ASCII_CODE: u8 = 0x7E;

/// Ascent, descent and leading of Chicago 12.
pub const CHICAGO12_FRAME: (i16, i16, i16) = (12, 3, 1);

/// The widest character of Chicago 12.
pub const CHICAGO12_WID_MAX: i16 = 14;

/// The advances of Geneva 9, one per printable ASCII character.
pub const GENEVA9_ADVANCES: [u8; 95] = [
    3, 3, 5, 7, 6, 9, 8, 3, 4, 4, 7, 6, 4, 5, 3, 6, 6, 6, 6, 6, 6, 6, 6, 6, 6, 6, 4, 4, 5, 6, 5, 6,
    8, 7, 6, 6, 6, 5, 5, 6, 6, 3, 6, 6, 5, 8, 6, 6, 6, 6, 6, 6, 6, 6, 6, 8, 6, 6, 5, 4, 6, 4, 4, 6,
    3, 5, 5, 5, 5, 5, 4, 5, 5, 3, 4, 5, 3, 8, 5, 5, 5, 5, 5, 5, 4, 5, 6, 8, 6, 6, 5, 4, 2, 4, 6,
];

/// The widest advance of Monaco, in units of its em.
pub const MONACO_MAX_ADVANCE_UNITS: i32 = 1552;

pub const MONACO_UNITS_PER_EM: i32 = 2048;

/// The outlines that ship with the library.
#[derive(Clone, Copy, Debug, PartialEq, Eq, Structural)]
pub enum BundledOutline {
    NimbusSansBold,
    NimbusSansRegular,
    NimbusMonoRegular,
    NimbusRomanRegular,
    P052Roman,
    Z003MediumItalic,
    C059Bold,
    UrwGothicDemi,
}

/// The pixel-grid fonts that ship with the library.
#[derive(Clone, Copy, Debug, PartialEq, Eq, Structural)]
pub enum PixelStrike {
    Geneva9,
    ChicagoKare,
}

/// Layout data of Chicago 12: one byte per printable ASCII character.
#[derive(Clone, Copy)]
pub struct ClassicLayoutData {
    pub chicago12_advances: [u8; 95],
    /// Signed left bearings: the column of the leftmost ink.
    pub chicago12_bearings: [u8; 95],
}

/// The classic layout data that a bundled face takes; every part is absent
/// for most faces.
#[derive(Clone, Copy)]
pub struct Layout {
    pub advances: Option<[u8; 95]>,
    /// Left bearings of the characters that a pixel strike draws; a
    /// substitute outline keeps its own.
    pub bearings: Option<[u8; 95]>,
    pub wid_max: Option<i16>,
    /// Ascent, descent and leading, used as given.
    pub frame: Option<(i16, i16, i16)>,
}

/// The outline of a family.
pub open spec fn outline_of(font_id: i16) -> Option<BundledOutline> {
    if font_id == FONT_CHICAGO {
        Some(BundledOutline::NimbusSansBold)
    } else if font_id == FONT_APPLICATION || font_id == FONT_GENEVA || font_id == FONT_HELVETICA {
        Some(BundledOutline::NimbusSansRegular)
    } else if font_id == FONT_MONACO || font_id == FONT_COURIER {
        Some(BundledOutline::NimbusMonoRegular)
    } else if font_id == FONT_NEWYORK || font_id == FONT_TIMES {
        Some(BundledOutline::NimbusRomanRegular)
    } else if font_id == FONT_PALATINO {
        Some(BundledOutline::P052Roman)
    } else if font_id == FONT_VENICE {
        Some(BundledOutline::Z003MediumItalic)
    } else if font_id == FONT_LONDON {
        Some(BundledOutline::C059Bold)
    } else if font_id == FONT_CAIRO {
        Some(BundledOutline::UrwGothicDemi)
    } else {
        None
    }
}

/// The face is Geneva 9, also as the application font.
pub open spec fn is_geneva9(font_id: i16, size: i16) -> bool {
    (font_id == FONT_APPLICATION || font_id == FONT_GENEVA) && size == 9
}

/// The face is Chicago 12.
pub open spec fn is_chicago12(font_id: i16, size: i16) -> bool {
    font_id == FONT_CHICAGO && size == 12
}

/// The widest advance that a family's classic metadata records: Monaco's
/// scales with its size and is rounded to the nearest pixel.
pub open spec fn classic_wid_max(font_id: i16, size: i16) -> Option<i16> {
    if is_chicago12(font_id, size) {
        Some(CHICAGO12_WID_MAX)
    } else if font_id == FONT_MONACO && size > 0 {
        Some(((1552 * size + 1024) / 2048) as i16)
    } else {
        None
    }
}

/// The outline that stands for a family.
pub fn bundled_outline(font_id: i16) -> (outline: Option<BundledOutline>)
    ensures
        outline == outline_of(font_id),
{
    if font_id == FONT_CHICAGO {
        Some(BundledOutline::NimbusSansBold)
    } else if font_id == FONT_APPLICATION || font_id == FONT_GENEVA || font_id == FONT_HELVETICA {
        Some(BundledOutline::NimbusSansRegular)
    } else if font_id == FONT_MONACO || font_id == FONT_COURIER {
        Some(BundledOutline::NimbusMonoRegular)
    } else if font_id == FONT_NEWYORK || font_id == FONT_TIMES {
        Some(BundledOutline::NimbusRomanRegular)
    } else if font_id == FONT_PALATINO {
        Some(BundledOutline::P052Roman)
    } else if font_id == FONT_VENICE {
        Some(BundledOutline::Z003MediumItalic)
    } else if font_id == FONT_LONDON {
        Some(BundledOutline::C059Bold)
    } else if font_id == FONT_CAIRO {
        Some(BundledOutline::UrwGothicDemi)
    } else {
        None
    }
}

/// The pixel-grid font that draws a face at one size, with the pixels per em
/// at which one square of its grid is one pixel.
pub fn pixel_strike(font_id: i16, size: i16) -> (strike: Option<(PixelStrike, u16)>)
    ensures
        strike == (if is_geneva9(font_id, size) {
            Some((PixelStrike::Geneva9, 16u16))
        } else if is_chicago12(font_id, size) {
            Some((PixelStrike::ChicagoKare, 16u16))
        } else {
            None
        }),
{
    if (font_id == FONT_APPLICATION || font_id == FONT_GENEVA) && size == 9 {
        Some((PixelStrike::Geneva9, 16))
    } else if font_id == FONT_CHICAGO && size == 12 {
        Some((PixelStrike::ChicagoKare, 16))
    } else {
        None
    }
}

/// The classic advances of a face.
pub fn bundled_advances(data: &ClassicLayoutData, font_id: i16, size: i16) -> (advances: Option<
    [u8; 95],
>)
    ensures
        advances == (if is_geneva9(font_id, size) {
            Some(GENEVA9_ADVANCES)
        } else if is_chicago12(font_id, size) {
            Some(data.chicago12_advances)
        } else {
            None
        }),
{
    if (font_id == FONT_APPLICATION || font_id == FONT_GENEVA) && size == 9 {
        Some(GENEVA9_ADVANCES)
    } else if font_id == FONT_CHICAGO && size == 12 {
        Some(data.chicago12_advances)
    } else {
        None
    }
}

/// The widest advance that a family's classic metadata records.
pub fn bundled_wid_max(font_id: i16, size: i16) -> (wid_max: Option<i16>)
    ensures
        wid_max == classic_wid_max(font_id, size),
{
    if font_id == FONT_CHICAGO && size == 12 {
        return Some(CHICAGO12_WID_MAX);
    }
    if font_id == FONT_MONACO && size > 0 {
        let units: i32 = MONACO_MAX_ADVANCE_UNITS * size as i32 + MONACO_UNITS_PER_EM / 2;
        Some((units / MONACO_UNITS_PER_EM) as i16)
    } else {
        None
    }
}

/// All classic layout data of a face.
pub fn bundled_layout(data: &ClassicLayoutData, font_id: i16, size: i16) -> (layout: Layout)
    ensures
        layout.advances == (if is_geneva9(font_id, size) {
            Some(GENEVA9_ADVANCES)
        } else if is_chicago12(font_id, size) {
            Some(data.chicago12_advances)
        } else {
            None
        }),
        layout.bearings == (if is_chicago12(font_id, size) {
            Some(data.chicago12_bearings)
        } else {
            None
        }),
        layout.wid_max == classic_wid_max(font_id, size),
        layout.frame == (if is_chicago12(font_id, size) {
            Some(CHICAGO12_FRAME)
        } else {
            None
        }),
{
    let chicago12 = font_id == FONT_CHICAGO && size == 12;
    Layout {
        advances: bundled_advances(data, font_id, size),
        bearings: if chicago12 {
            Some(data.chicago12_bearings)
        } else {
            None
        },
        wid_max: bundled_wid_max(font_id, size),
        frame: if chicago12 {
            Some(CHICAGO12_FRAME)
        } else {
            None
        },
    }
}

/// Monaco's widest advance never shrinks with a greater size.
pub proof fn monaco_widens_with_its_size(smaller: i16, larger: i16)
    requires
        0 < smaller <= larger,
    ensures
        classic_wid_max(FONT_MONACO, smaller) is Some,
        classic_wid_max(FONT_MONACO, larger) is Some,
        classic_wid_max(FONT_MONACO, smaller)->0 <= classic_wid_max(FONT_MONACO, larger)->0,
{
}

} // verus!
