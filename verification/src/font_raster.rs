//! Faces assembled from drawn glyphs.

use crate::font_layout::Layout;
use crate::font_mask::mono_mask_with_dropout;
use vstd::prelude::*;

verus! {

/// The size of a glyph, its pen movement and its place in the mask data of
/// its face.
#[derive(Clone, Copy, Debug, PartialEq, Eq, Structural)]
pub struct Glyph {
    pub width: u8,
    pub height: u8,
    pub advance: u8,
    pub origin_x: i8,
    pub origin_y: i8,
    pub data_offset: usize,
}

/// The metrics of a face.
#[derive(Clone, Copy, Debug, PartialEq, Eq, Structural)]
pub struct FontMetrics {
    pub ascent: i16,
    pub descent: i16,
    pub wid_max: i16,
    pub leading: i16,
}

/// A family at one size: its metrics, its printable ASCII characters and the
/// mask data that they index.
#[derive(Debug, PartialEq, Eq)]
pub struct FontFace {
    pub font_id: i16,
    pub size: i16,
    pub metrics: FontMetrics,
    pub glyphs: Vec<Glyph>,
    pub data: Vec<u8>,
}

/// A character outside printable ASCII.
#[derive(Clone, Copy, Debug, PartialEq, Eq, Structural)]
pub struct MacRomanGlyph {
    pub mac_code: u8,
    pub glyph: Glyph,
}

/// The further Mac Roman characters of a face.
#[derive(Debug, PartialEq, Eq)]
pub struct MacRomanFace {
    pub font_id: i16,
    pub size: i16,
    pub glyphs: Vec<MacRomanGlyph>,
    pub data: Vec<u8>,
}

/// Coverage of a drawn outline and its place: `left` of the pen and `top`
/// above the baseline.
pub struct DrawnOutline {
    pub width: u32,
    pub height: u32,
    pub left: i32,
    pub top: i32,
    pub coverage: Vec<u8>,
}

/// A character as the rasterizer drew it.
pub struct DrawnGlyph {
    pub advance: u8,
    /// Drawn from the face's pixel strike rather than from its outline.
    pub from_strike: bool,
    /// Nothing for a character without ink.
    pub outline: Option<DrawnOutline>,
}

/// What the font that gives a face its frame says of itself, in whole pixels.
#[derive(Clone, Copy)]
pub struct DrawnFrame {
    pub ascent: i16,
    pub descent: i16,
    pub leading: i16,
    /// The widest advance of the outline, where it records one.
    pub max_width: Option<i16>,
    /// The frame is a pixel strike's: only what the strike draws extends it.
    pub from_strike: bool,
}

impl DrawnOutline {
    /// The coverage has one byte per pixel.
    pub open spec fn complete(&self) -> bool {
        self.coverage@.len() == self.width * self.height
    }

    /// Size and place fit a glyph.
    pub open spec fn fits(&self) -> bool {
        &&& self.width <= 255
        &&& self.height <= 255
        &&& -128 <= self.left <= 127
        &&& -128 <= -self.top <= 127
    }
}

impl DrawnGlyph {
    pub open spec fn complete(&self) -> bool {
        self.outline matches Some(outline) ==> outline.complete()
    }

    /// The character can be a glyph of a face.
    pub open spec fn fits(&self) -> bool {
        self.outline matches Some(outline) ==> outline.fits()
    }

    /// The mask of the character.
    pub open spec fn mask(&self) -> Seq<u8> {
        match self.outline {
            Some(outline) => crate::font_mask::mono_mask(
                outline.coverage@,
                outline.width as nat,
                outline.height as nat,
            ),
            None => Seq::empty(),
        }
    }

    /// The glyph of the character, with its mask at a place in the data.
    pub open spec fn glyph(&self, data_offset: int) -> Glyph {
        match self.outline {
            Some(outline) => Glyph {
                width: outline.width as u8,
                height: outline.height as u8,
                advance: self.advance,
                origin_x: outline.left as i8,
                origin_y: (-outline.top) as i8,
                data_offset: data_offset as usize,
            },
            None => Glyph {
                width: 0,
                height: 0,
                advance: self.advance,
                origin_x: 0,
                origin_y: 0,
                data_offset: data_offset as usize,
            },
        }
    }
}

/// The masks of some characters, one after the other.
pub open spec fn mask_data(drawn: Seq<DrawnGlyph>) -> Seq<u8>
    decreases drawn.len(),
{
    if drawn.len() == 0 {
        Seq::empty()
    } else {
        mask_data(drawn.drop_last()) + drawn.last().mask()
    }
}

/// The glyphs of some characters, with their masks one after the other.
pub open spec fn placed_glyphs(drawn: Seq<DrawnGlyph>) -> Seq<Glyph> {
    Seq::new(
        drawn.len(),
        |i: int| drawn[i].glyph(mask_data(drawn.take(i)).len() as int),
    )
}

/// Every character fits a glyph.
pub open spec fn all_fit(drawn: Seq<DrawnGlyph>) -> bool {
    forall|i: int| 0 <= i < drawn.len() ==> (#[trigger] drawn[i]).fits()
}

/// The number of printable ASCII characters.
pub const ASCII_GLYPHS: usize = 95;

/// The number of characters of a face with its Mac Roman extension.
pub const FACE_GLYPHS: usize = 223;

/// A printable ASCII character with the classic layout of its face.
pub open spec fn laid_out(glyph: Glyph, from_strike: bool, index: int, layout: Layout) -> Glyph {
    Glyph {
        advance: match layout.advances {
            Some(advances) => advances@[index],
            None => glyph.advance,
        },
        origin_x: match layout.bearings {
            Some(bearings) => if from_strike {
                signed_byte(bearings@[index])
            } else {
                glyph.origin_x
            },
            None => glyph.origin_x,
        },
        ..glyph
    }
}

/// A byte as a signed number.
pub open spec fn signed_byte(byte: u8) -> i8 {
    if byte < 128 {
        byte as i8
    } else {
        (byte - 256) as i8
    }
}

/// The glyphs of a face and of its extension, in that order.
pub open spec fn face_glyphs(drawn: Seq<DrawnGlyph>, layout: Layout) -> Seq<Glyph> {
    Seq::new(
        drawn.len(),
        |i: int|
            if i < ASCII_GLYPHS {
                laid_out(placed_glyphs(drawn)[i], drawn[i].from_strike, i, layout)
            } else {
                placed_glyphs(drawn)[i]
            },
    )
}

/// The greatest of some numbers, or zero where there are none.
pub open spec fn greatest(values: Seq<int>) -> int
    decreases values.len(),
{
    if values.len() == 0 {
        0
    } else if values.len() == 1 {
        values[0]
    } else {
        let before = greatest(values.drop_last());
        if values.last() >= before {
            values.last()
        } else {
            before
        }
    }
}

/// The glyphs that extend a face beyond the frame of its font.
pub open spec fn framed_glyphs(glyphs: Seq<Glyph>, drawn: Seq<DrawnGlyph>, frame: DrawnFrame) -> Seq<Glyph>
    decreases glyphs.len(),
{
    if glyphs.len() == 0 {
        glyphs
    } else {
        let before = framed_glyphs(glyphs.drop_last(), drawn.drop_last(), frame);
        if !frame.from_strike || drawn.last().from_strike {
            before.push(glyphs.last())
        } else {
            before
        }
    }
}

pub open spec fn larger(a: int, b: int) -> int {
    if a >= b {
        a
    } else {
        b
    }
}

/// How far above the baseline a face reaches.
pub open spec fn face_ascent(glyphs: Seq<Glyph>, drawn: Seq<DrawnGlyph>, frame: DrawnFrame) -> int {
    let framed = framed_glyphs(glyphs, drawn, frame);
    larger(
        frame.ascent as int,
        greatest(Seq::new(framed.len(), |i: int| -(framed[i].origin_y as int))),
    )
}

/// How far below the baseline a face reaches.
pub open spec fn face_descent(glyphs: Seq<Glyph>, drawn: Seq<DrawnGlyph>, frame: DrawnFrame) -> int {
    let framed = framed_glyphs(glyphs, drawn, frame);
    larger(
        frame.descent as int,
        greatest(
            Seq::new(framed.len(), |i: int| framed[i].origin_y as int + framed[i].height as int),
        ),
    )
}

/// The widest advance of the glyphs.
pub open spec fn widest_advance(glyphs: Seq<Glyph>) -> int {
    greatest(Seq::new(glyphs.len(), |i: int| glyphs[i].advance as int))
}

/// The widest advance of a face: what its classic layout or its outline
/// records, and no less than what its glyphs have.
pub open spec fn face_wid_max(glyphs: Seq<Glyph>, frame: DrawnFrame, layout: Layout) -> int {
    let mapped = widest_advance(glyphs);
    let selected = match layout.wid_max {
        Some(wid_max) => wid_max as int,
        None => if layout.advances is Some {
            mapped
        } else {
            match frame.max_width {
                Some(width) => width as int,
                None => mapped,
            }
        },
    };
    larger(selected, mapped)
}

/// The metrics of a face.
pub open spec fn face_metrics(
    glyphs: Seq<Glyph>,
    drawn: Seq<DrawnGlyph>,
    frame: DrawnFrame,
    layout: Layout,
) -> FontMetrics {
    FontMetrics {
        ascent: match layout.frame {
            Some(classic) => classic.0,
            None => face_ascent(glyphs, drawn, frame) as i16,
        },
        descent: match layout.frame {
            Some(classic) => classic.1,
            None => face_descent(glyphs, drawn, frame) as i16,
        },
        wid_max: face_wid_max(glyphs, frame, layout) as i16,
        leading: match layout.frame {
            Some(classic) => classic.2,
            None => frame.leading,
        },
    }
}

/// The extension of a face: the codes from the first Mac Roman one on.
pub open spec fn extension_glyphs(glyphs: Seq<Glyph>) -> Seq<MacRomanGlyph> {
    Seq::new(
        (glyphs.len() - ASCII_GLYPHS) as nat,
        |i: int| MacRomanGlyph { mac_code: (0x80 + i) as u8, glyph: glyphs[ASCII_GLYPHS + i] },
    )
}

/// A face holds the printable ASCII characters; their masks lie within its
/// data, which marks each pixel with 0 or 255.
pub open spec fn face_complete(face: FontFace) -> bool {
    &&& face.glyphs@.len() == ASCII_GLYPHS
    &&& forall|i: int|
        0 <= i < ASCII_GLYPHS ==> (#[trigger] face.glyphs@[i]).data_offset + face.glyphs@[i].width
            * face.glyphs@[i].height <= face.data@.len()
    &&& forall|i: int|
        0 <= i < face.data@.len() ==> (#[trigger] face.data@[i]) == 0 || face.data@[i] == 255
}

/// An extension holds exactly the codes from 0x80 on, in order; their masks
/// lie within its data, which marks each pixel with 0 or 255.
pub open spec fn extension_complete(extension: MacRomanFace) -> bool {
    &&& extension.glyphs@.len() == 128
    &&& forall|i: int|
        0 <= i < 128 ==> {
            &&& (#[trigger] extension.glyphs@[i]).mac_code == 0x80 + i
            &&& extension.glyphs@[i].glyph.data_offset + extension.glyphs@[i].glyph.width
                * extension.glyphs@[i].glyph.height <= extension.data@.len()
        }
    &&& forall|i: int|
        0 <= i < extension.data@.len() ==> (#[trigger] extension.data@[i]) == 0
            || extension.data@[i] == 255
}

proof fn lemma_mask_bounds(outline: &DrawnOutline)
    requires
        outline.complete(),
        outline.fits(),
    ensures
        outline.width * outline.height <= 65025,
        crate::font_mask::kept_pixels(outline.coverage@) <= 65025,
        crate::font_mask::coverage_mass(
            outline.coverage@.take(outline.width * outline.height),
        ) <= 255 * 65025,
{
    assert(outline.width * outline.height <= 255 * 255) by (nonlinear_arith)
        requires
            outline.width <= 255,
            outline.height <= 255,
    ;
    crate::font_mask::lemma_mass_bound(outline.coverage@);
    crate::font_mask::lemma_mass_bound(outline.coverage@.take(outline.width * outline.height));
}

/// Turn a drawn character into a glyph and append its mask. A character that
/// does not fit a glyph is refused.
pub fn place_glyph(drawn: &DrawnGlyph, data: &mut Vec<u8>) -> (glyph: Option<Glyph>)
    requires
        drawn.complete(),
    ensures
        glyph == (if drawn.fits() {
            Some(drawn.glyph(old(data)@.len() as int))
        } else {
            None
        }),
        final(data)@ == (if drawn.fits() {
            old(data)@ + drawn.mask()
        } else {
            old(data)@
        }),
{
    let data_offset: usize = data.len();
    match &drawn.outline {
        None => {
            assert(data@ + drawn.mask() =~= data@);
            Some(
                Glyph {
                    width: 0,
                    height: 0,
                    advance: drawn.advance,
                    origin_x: 0,
                    origin_y: 0,
                    data_offset,
                },
            )
        },
        Some(outline) => {
            if outline.width > 255 || outline.height > 255 || outline.left < -128 || outline.left
                > 127 || outline.top < -127 || outline.top > 128 {
                return None;
            }
            proof {
                lemma_mask_bounds(outline);
            }
            let mut mask = mono_mask_with_dropout(
                outline.coverage.as_slice(),
                outline.width as usize,
                outline.height as usize,
            );
            data.append(&mut mask);
            let origin_y: i32 = -outline.top;
            Some(
                Glyph {
                    width: outline.width as u8,
                    height: outline.height as u8,
                    advance: drawn.advance,
                    origin_x: outline.left as i8,
                    origin_y: origin_y as i8,
                    data_offset,
                },
            )
        },
    }
}

fn place_all(drawn: &Vec<DrawnGlyph>, data: &mut Vec<u8>) -> (glyphs: Option<Vec<Glyph>>)
    requires
        old(data)@.len() == 0,
        forall|i: int| 0 <= i < drawn@.len() ==> (#[trigger] drawn@[i]).complete(),
    ensures
        match glyphs {
            Some(glyphs) => {
                &&& all_fit(drawn@)
                &&& glyphs@ == placed_glyphs(drawn@)
                &&& final(data)@ == mask_data(drawn@)
            },
            None => !all_fit(drawn@),
        },
{
    let mut glyphs: Vec<Glyph> = Vec::new();
    let count: usize = drawn.len();
    let mut i: usize = 0;
    assert(data@ =~= mask_data(drawn@.take(0)));
    while i < count
        invariant
            i <= count,
            count == drawn@.len(),
            forall|j: int| 0 <= j < drawn@.len() ==> (#[trigger] drawn@[j]).complete(),
            forall|j: int| 0 <= j < i ==> (#[trigger] drawn@[j]).fits(),
            glyphs@.len() == i,
            forall|j: int| 0 <= j < i ==> (#[trigger] glyphs@[j]) == placed_glyphs(drawn@)[j],
            data@ == mask_data(drawn@.take(i as int)),
        decreases count - i,
    {
        assert(drawn@.take(i + 1).drop_last() =~= drawn@.take(i as int));
        assert(drawn@[i as int].complete());
        match place_glyph(&drawn[i], data) {
            Some(glyph) => {
                glyphs.push(glyph);
            },
            None => {
                assert(!drawn@[i as int].fits());
                return None;
            },
        }
        i += 1;
    }
    assert(drawn@.take(count as int) =~= drawn@);
    assert(glyphs@ =~= placed_glyphs(drawn@));
    Some(glyphs)
}

fn to_signed(byte: u8) -> (number: i8)
    ensures
        number == signed_byte(byte),
{
    if byte < 128 {
        byte as i8
    } else {
        (byte as i16 - 256) as i8
    }
}

fn lay_out(glyphs: &mut Vec<Glyph>, drawn: &Vec<DrawnGlyph>, layout: &Layout)
    requires
        old(glyphs)@ == placed_glyphs(drawn@),
        drawn@.len() == FACE_GLYPHS,
    ensures
        final(glyphs)@ == face_glyphs(drawn@, *layout),
{
    let mut i: usize = 0;
    while i < ASCII_GLYPHS
        invariant
            i <= ASCII_GLYPHS,
            drawn@.len() == FACE_GLYPHS,
            glyphs@.len() == FACE_GLYPHS,
            placed_glyphs(drawn@).len() == FACE_GLYPHS,
            forall|j: int| 0 <= j < i ==> (#[trigger] glyphs@[j]) == face_glyphs(drawn@, *layout)[j],
            forall|j: int|
                i <= j < FACE_GLYPHS ==> (#[trigger] glyphs@[j]) == placed_glyphs(drawn@)[j],
        decreases ASCII_GLYPHS - i,
    {
        let mut glyph = glyphs[i];
        if let Some(advances) = &layout.advances {
            glyph.advance = advances[i];
        }
        if let Some(bearings) = &layout.bearings {
            if drawn[i].from_strike {
                glyph.origin_x = to_signed(bearings[i]);
            }
        }
        glyphs.set(i, glyph);
        i += 1;
    }
    assert(glyphs@ =~= face_glyphs(drawn@, *layout));
}

proof fn lemma_framed_take(glyphs: Seq<Glyph>, drawn: Seq<DrawnGlyph>, frame: DrawnFrame, i: int)
    requires
        0 <= i < glyphs.len(),
        glyphs.len() == drawn.len(),
    ensures
        framed_glyphs(glyphs.take(i + 1), drawn.take(i + 1), frame) == (if !frame.from_strike
            || drawn[i].from_strike {
            framed_glyphs(glyphs.take(i), drawn.take(i), frame).push(glyphs[i])
        } else {
            framed_glyphs(glyphs.take(i), drawn.take(i), frame)
        }),
{
    assert(glyphs.take(i + 1).drop_last() =~= glyphs.take(i));
    assert(drawn.take(i + 1).drop_last() =~= drawn.take(i));
}

proof fn lemma_greatest_push(values: Seq<int>, value: int)
    ensures
        greatest(values.push(value)) == (if values.len() == 0 {
            value
        } else {
            larger(value, greatest(values))
        }),
{
    assert(values.push(value).drop_last() =~= values);
}

/// How far above and below the baseline a face reaches.
fn measure_frame(glyphs: &Vec<Glyph>, drawn: &Vec<DrawnGlyph>, frame: &DrawnFrame) -> (reach: (
    i16,
    i16,
))
    requires
        glyphs@.len() == drawn@.len(),
    ensures
        reach.0 == face_ascent(glyphs@, drawn@, *frame),
        reach.1 == face_descent(glyphs@, drawn@, *frame),
{
    let mut above: i16 = 0;
    let mut below: i16 = 0;
    let mut any: bool = false;
    let count: usize = glyphs.len();
    let mut i: usize = 0;
    while i < count
        invariant
            i <= count,
            count == glyphs@.len(),
            glyphs@.len() == drawn@.len(),
            any == (framed_glyphs(
                glyphs@.take(i as int),
                drawn@.take(i as int),
                *frame,
            ).len() > 0),
            ({
                let framed = framed_glyphs(glyphs@.take(i as int), drawn@.take(i as int), *frame);
                &&& above == greatest(
                    Seq::new(framed.len(), |k: int| -(framed[k].origin_y as int)),
                )
                &&& below == greatest(
                    Seq::new(
                        framed.len(),
                        |k: int| framed[k].origin_y as int + framed[k].height as int,
                    ),
                )
            }),
        decreases count - i,
    {
        let ghost framed = framed_glyphs(glyphs@.take(i as int), drawn@.take(i as int), *frame);
        let ghost tops = Seq::new(framed.len(), |k: int| -(framed[k].origin_y as int));
        let ghost bottoms = Seq::new(
            framed.len(),
            |k: int| framed[k].origin_y as int + framed[k].height as int,
        );
        let glyph = glyphs[i];
        proof {
            lemma_framed_take(glyphs@, drawn@, *frame, i as int);
            let longer = framed.push(glyph);
            assert(Seq::new(longer.len(), |k: int| -(longer[k].origin_y as int)) =~= tops.push(
                -(glyph.origin_y as int),
            ));
            assert(Seq::new(
                longer.len(),
                |k: int| longer[k].origin_y as int + longer[k].height as int,
            ) =~= bottoms.push(glyph.origin_y as int + glyph.height as int));
            lemma_greatest_push(tops, -(glyph.origin_y as int));
            lemma_greatest_push(bottoms, glyph.origin_y as int + glyph.height as int);
        }
        if !frame.from_strike || drawn[i].from_strike {
            let top: i16 = -(glyph.origin_y as i16);
            let bottom: i16 = glyph.origin_y as i16 + glyph.height as i16;
            if !any || top >= above {
                above = top;
            }
            if !any || bottom >= below {
                below = bottom;
            }
            any = true;
        }
        i += 1;
    }
    assert(glyphs@.take(count as int) =~= glyphs@);
    assert(drawn@.take(count as int) =~= drawn@);
    (
        if frame.ascent >= above {
            frame.ascent
        } else {
            above
        },
        if frame.descent >= below {
            frame.descent
        } else {
            below
        },
    )
}

fn measure_advances(glyphs: &Vec<Glyph>) -> (widest: i16)
    ensures
        widest == widest_advance(glyphs@),
        0 <= widest <= 255,
{
    let mut widest: i16 = 0;
    let count: usize = glyphs.len();
    let mut i: usize = 0;
    while i < count
        invariant
            i <= count,
            count == glyphs@.len(),
            0 <= widest <= 255,
            widest == widest_advance(glyphs@.take(i as int)),
        decreases count - i,
    {
        proof {
            let shorter = glyphs@.take(i as int);
            let advances = Seq::new(shorter.len(), |k: int| shorter[k].advance as int);
            let longer = glyphs@.take(i + 1);
            assert(Seq::new(longer.len(), |k: int| longer[k].advance as int) =~= advances.push(
                glyphs@[i as int].advance as int,
            ));
            lemma_greatest_push(advances, glyphs@[i as int].advance as int);
        }
        let advance: i16 = glyphs[i].advance as i16;
        if advance >= widest {
            widest = advance;
        }
        i += 1;
    }
    assert(glyphs@.take(count as int) =~= glyphs@);
    widest
}

fn copy_mask(data: &Vec<u8>) -> (copy: Vec<u8>)
    ensures
        copy@ == data@,
{
    let mut copy: Vec<u8> = Vec::new();
    let count: usize = data.len();
    let mut i: usize = 0;
    while i < count
        invariant
            i <= count,
            count == data@.len(),
            copy@ == data@.take(i as int),
        decreases count - i,
    {
        assert(data@.take(i + 1) =~= data@.take(i as int).push(data@[i as int]));
        copy.push(data[i]);
        i += 1;
    }
    assert(data@.take(count as int) =~= data@);
    copy
}

fn split_glyphs(glyphs: &Vec<Glyph>) -> (parts: (Vec<Glyph>, Vec<MacRomanGlyph>))
    requires
        glyphs@.len() == FACE_GLYPHS,
    ensures
        parts.0@ == glyphs@.take(ASCII_GLYPHS as int),
        parts.1@ == extension_glyphs(glyphs@),
{
    let mut ascii: Vec<Glyph> = Vec::new();
    let mut extended: Vec<MacRomanGlyph> = Vec::new();
    let mut i: usize = 0;
    while i < FACE_GLYPHS
        invariant
            i <= FACE_GLYPHS,
            glyphs@.len() == FACE_GLYPHS,
            ascii@ == glyphs@.take(
                if i < ASCII_GLYPHS {
                    i as int
                } else {
                    ASCII_GLYPHS as int
                },
            ),
            extended@.len() == (if i < ASCII_GLYPHS {
                0
            } else {
                i - ASCII_GLYPHS
            }),
            forall|j: int|
                0 <= j < extended@.len() ==> (#[trigger] extended@[j]) == extension_glyphs(
                    glyphs@,
                )[j],
        decreases FACE_GLYPHS - i,
    {
        if i < ASCII_GLYPHS {
            assert(glyphs@.take(i + 1) =~= glyphs@.take(i as int).push(glyphs@[i as int]));
            ascii.push(glyphs[i]);
        } else {
            let mac_code: u8 = (0x80 + (i - ASCII_GLYPHS)) as u8;
            extended.push(MacRomanGlyph { mac_code, glyph: glyphs[i] });
        }
        i += 1;
    }
    assert(extended@ =~= extension_glyphs(glyphs@));
    (ascii, extended)
}

/// Assemble a face and its Mac Roman extension from its drawn characters: the
/// printable ASCII ones, then the codes from 0x80 on. A face with a character
/// that does not fit a glyph is refused.
pub fn assemble_faces(
    font_id: i16,
    size: i16,
    drawn: &Vec<DrawnGlyph>,
    frame: &DrawnFrame,
    layout: &Layout,
) -> (faces: Option<(FontFace, MacRomanFace)>)
    requires
        drawn@.len() == FACE_GLYPHS,
        forall|i: int| 0 <= i < drawn@.len() ==> (#[trigger] drawn@[i]).complete(),
    ensures
        match faces {
            Some(faces) => {
                let glyphs = face_glyphs(drawn@, *layout);
                &&& all_fit(drawn@)
                &&& faces.0.font_id == font_id
                &&& faces.0.size == size
                &&& faces.0.metrics == face_metrics(glyphs, drawn@, *frame, *layout)
                &&& faces.0.glyphs@ == glyphs.take(ASCII_GLYPHS as int)
                &&& faces.0.data@ == mask_data(drawn@)
                &&& faces.1.font_id == font_id
                &&& faces.1.size == size
                &&& faces.1.glyphs@ == extension_glyphs(glyphs)
                &&& faces.1.data@ == mask_data(drawn@)
                &&& face_complete(faces.0)
                &&& extension_complete(faces.1)
            },
            None => !all_fit(drawn@),
        },
{
    let mut data: Vec<u8> = Vec::new();
    let mut glyphs = match place_all(drawn, &mut data) {
        Some(glyphs) => glyphs,
        None => {
            return None;
        },
    };
    lay_out(&mut glyphs, drawn, layout);
    let (reach_above, reach_below) = measure_frame(&glyphs, drawn, frame);
    let mapped_wid_max: i16 = measure_advances(&glyphs);
    let selected_wid_max: i16 = match layout.wid_max {
        Some(wid_max) => wid_max,
        None => if layout.advances.is_some() {
            mapped_wid_max
        } else {
            match frame.max_width {
                Some(width) => width,
                None => mapped_wid_max,
            }
        },
    };
    let wid_max: i16 = if selected_wid_max >= mapped_wid_max {
        selected_wid_max
    } else {
        mapped_wid_max
    };
    let (ascent, descent, leading) = match layout.frame {
        Some(classic) => classic,
        None => (reach_above, reach_below, frame.leading),
    };
    let (ascii, extended) = split_glyphs(&glyphs);
    let extended_data = copy_mask(&data);
    proof {
        lemma_masks_are_binary(drawn@);
        assert(mask_data(drawn@).len() == extended_data.len());
        assert forall|i: int| 0 <= i < 128 implies {
            &&& (#[trigger] extended@[i]).mac_code == 0x80 + i
            &&& extended@[i].glyph.data_offset + extended@[i].glyph.width
                * extended@[i].glyph.height <= extended_data@.len()
        } by {
            assert(drawn@[ASCII_GLYPHS + i].complete());
            glyph_masks_lie_in_the_data(drawn@, *layout, ASCII_GLYPHS + i);
        }
        assert forall|i: int| 0 <= i < ASCII_GLYPHS implies (#[trigger] ascii@[i]).data_offset
            + ascii@[i].width * ascii@[i].height <= data@.len() by {
            assert(drawn@[i].complete());
            glyph_masks_lie_in_the_data(drawn@, *layout, i);
        }
    }
    Some(
        (
            FontFace {
                font_id,
                size,
                metrics: FontMetrics { ascent, descent, wid_max, leading },
                glyphs: ascii,
                data,
            },
            MacRomanFace { font_id, size, glyphs: extended, data: extended_data },
        ),
    )
}

/// Masks mark each pixel with 0 or 255.
proof fn lemma_masks_are_binary(drawn: Seq<DrawnGlyph>)
    ensures
        forall|i: int|
            0 <= i < mask_data(drawn).len() ==> (#[trigger] mask_data(drawn)[i]) == 0 || mask_data(
                drawn,
            )[i] == 255,
    decreases drawn.len(),
{
    if drawn.len() > 0 {
        let before = mask_data(drawn.drop_last());
        let mask = drawn.last().mask();
        lemma_masks_are_binary(drawn.drop_last());
        if let Some(outline) = drawn.last().outline {
            crate::font_mask::mask_keeps_the_threshold(
                outline.coverage@,
                outline.width as nat,
                outline.height as nat,
            );
        }
        assert forall|i: int| 0 <= i < mask_data(drawn).len() implies (
        #[trigger] mask_data(drawn)[i]) == 0 || mask_data(drawn)[i] == 255 by {
            if i < before.len() {
                assert(mask_data(drawn)[i] == before[i]);
            } else {
                assert(mask_data(drawn)[i] == mask[i - before.len()]);
            }
        }
    }
}

proof fn lemma_data_grows(drawn: Seq<DrawnGlyph>, from: int)
    requires
        0 <= from < drawn.len(),
    ensures
        mask_data(drawn.take(from)).len() + drawn[from].mask().len() <= mask_data(drawn).len(),
    decreases drawn.len(),
{
    let shorter = drawn.drop_last();
    if from == drawn.len() - 1 {
        assert(drawn.take(from) =~= shorter);
    } else {
        assert(shorter.take(from) =~= drawn.take(from));
        assert(shorter[from] == drawn[from]);
        lemma_data_grows(shorter, from);
    }
}

/// The mask of every glyph of a face lies within the face's data.
pub proof fn glyph_masks_lie_in_the_data(drawn: Seq<DrawnGlyph>, layout: Layout, i: int)
    requires
        0 <= i < drawn.len(),
        drawn[i].complete(),
        all_fit(drawn),
        mask_data(drawn).len() <= usize::MAX,
    ensures
        ({
            let glyph = face_glyphs(drawn, layout)[i];
            glyph.data_offset + glyph.width * glyph.height <= mask_data(drawn).len()
        }),
{
    lemma_data_grows(drawn, i);
    assert(drawn[i].fits());
    let glyph = face_glyphs(drawn, layout)[i];
    assert(glyph.data_offset == mask_data(drawn.take(i)).len());
    match drawn[i].outline {
        Some(outline) => {
            crate::font_mask::mask_keeps_the_threshold(
                outline.coverage@,
                outline.width as nat,
                outline.height as nat,
            );
            assert(glyph.width == outline.width && glyph.height == outline.height);
            assert(glyph.width * glyph.height == outline.width * outline.height);
        },
        None => {
            assert(glyph.width * glyph.height == 0) by (nonlinear_arith)
                requires
                    glyph.width == 0,
            ;
        },
    }
}

/// A face without classic layout data keeps what its font draws: advances,
/// origins and masks are those of the drawn characters.
pub proof fn face_without_layout_is_as_drawn(drawn: Seq<DrawnGlyph>, layout: Layout, i: int)
    requires
        0 <= i < drawn.len(),
        layout.advances is None,
        layout.bearings is None,
    ensures
        face_glyphs(drawn, layout)[i] == placed_glyphs(drawn)[i],
{
}

} // verus!
