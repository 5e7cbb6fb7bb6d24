//! What a face of a font shows: its metrics cover its glyphs, its layout moves
//! what it names, and a request finds what suits it.

use crate::font_charmap::FontPlatform;
use crate::font_faces::FontCatalogue;
use crate::font_layout::Layout;
use crate::font_raster::{DrawnFrame, DrawnGlyph, FontFace, Glyph, MacRomanFace, ASCII_GLYPHS};
use vstd::prelude::*;

verus! {

/// The greatest of some numbers is one of them, and none is above it.
pub proof fn greatest_is_reached(values: Seq<int>)
    requires
        values.len() > 0,
    ensures
        forall|i: int| 0 <= i < values.len() ==> (#[trigger] values[i]) <= crate::font_raster::greatest(
            values,
        ),
        values.contains(crate::font_raster::greatest(values)),
    decreases values.len(),
{
    if values.len() == 1 {
        assert(values[0] == crate::font_raster::greatest(values));
    } else {
        let shorter = values.drop_last();
        greatest_is_reached(shorter);
        let before = crate::font_raster::greatest(shorter);
        let k = choose|k: int| 0 <= k < shorter.len() && shorter[k] == before;
        assert(values[k] == before);
        assert(values[values.len() - 1] == values.last());
        assert forall|i: int| 0 <= i < values.len() implies (#[trigger] values[i])
            <= crate::font_raster::greatest(values) by {
            if i < shorter.len() {
                assert(shorter[i] == values[i]);
            }
        }
    }
}

/// A byte stands for the signed number that is the same modulo its range.
pub proof fn signed_byte_is_congruent(byte: u8)
    ensures
        (crate::font_raster::signed_byte(byte) - byte) % 256 == 0,
        byte < 128 ==> crate::font_raster::signed_byte(byte) == byte,
        byte >= 128 ==> crate::font_raster::signed_byte(byte) < 0,
{
}

/// The framed glyphs are glyphs of the face, and each glyph counts that comes
/// from where the frame comes from.
pub proof fn framed_glyphs_are_of_the_face(
    glyphs: Seq<Glyph>,
    drawn: Seq<DrawnGlyph>,
    frame: DrawnFrame,
)
    requires
        glyphs.len() == drawn.len(),
    ensures
        ({
            let framed = crate::font_raster::framed_glyphs(glyphs, drawn, frame);
            &&& framed.len() <= glyphs.len()
            &&& forall|k: int| 0 <= k < framed.len() ==> glyphs.contains(#[trigger] framed[k])
            &&& forall|i: int|
                0 <= i < glyphs.len() && (!frame.from_strike || (#[trigger] drawn[i]).from_strike)
                    ==> framed.contains(glyphs[i])
            &&& !frame.from_strike ==> framed == glyphs
        }),
    decreases glyphs.len(),
{
    if glyphs.len() > 0 {
        let shorter = glyphs.drop_last();
        let shorter_drawn = drawn.drop_last();
        let before = crate::font_raster::framed_glyphs(shorter, shorter_drawn, frame);
        let framed = crate::font_raster::framed_glyphs(glyphs, drawn, frame);
        framed_glyphs_are_of_the_face(shorter, shorter_drawn, frame);
        assert forall|k: int| 0 <= k < framed.len() implies glyphs.contains(#[trigger] framed[k]) by {
            if k < before.len() {
                assert(shorter.contains(before[k]));
                let i = choose|i: int| 0 <= i < shorter.len() && shorter[i] == before[k];
                assert(glyphs[i] == framed[k]);
            } else {
                assert(glyphs[glyphs.len() - 1] == framed[k]);
            }
        }
        assert forall|i: int|
            0 <= i < glyphs.len() && (!frame.from_strike || (
            #[trigger] drawn[i]).from_strike) implies framed.contains(glyphs[i]) by {
            if i < shorter.len() {
                assert(shorter_drawn[i] == drawn[i]);
                assert(before.contains(shorter[i]));
                let k = choose|k: int| 0 <= k < before.len() && before[k] == shorter[i];
                assert(framed[k] == glyphs[i]);
            } else {
                assert(framed[before.len() as int] == glyphs[i]);
            }
        }
        if !frame.from_strike {
            assert(framed =~= glyphs);
        }
    }
}

/// Without a layout that frames it, a face is as high and as deep as its
/// frame and as each glyph that counts, and no higher or deeper than one of
/// them; a layout that frames it is followed.
pub proof fn face_covers_its_glyphs(
    glyphs: Seq<Glyph>,
    drawn: Seq<DrawnGlyph>,
    frame: DrawnFrame,
    layout: Layout,
    i: int,
)
    requires
        glyphs.len() == drawn.len(),
        0 <= i < glyphs.len(),
        !frame.from_strike || drawn[i].from_strike,
    ensures
        crate::font_raster::face_ascent(glyphs, drawn, frame) >= frame.ascent,
        crate::font_raster::face_ascent(glyphs, drawn, frame) >= -glyphs[i].origin_y,
        crate::font_raster::face_ascent(glyphs, drawn, frame) == frame.ascent || exists|k: int|
            0 <= k < glyphs.len() && crate::font_raster::face_ascent(glyphs, drawn, frame) == -(
            #[trigger] glyphs[k]).origin_y,
        crate::font_raster::face_descent(glyphs, drawn, frame) >= frame.descent,
        crate::font_raster::face_descent(glyphs, drawn, frame) >= glyphs[i].origin_y
            + glyphs[i].height,
        crate::font_raster::face_descent(glyphs, drawn, frame) == frame.descent || exists|k: int|
            0 <= k < glyphs.len() && crate::font_raster::face_descent(glyphs, drawn, frame) == (
            #[trigger] glyphs[k]).origin_y + glyphs[k].height,
        layout.frame is Some ==> {
            let metrics = crate::font_raster::face_metrics(glyphs, drawn, frame, layout);
            (metrics.ascent, metrics.descent, metrics.leading) == layout.frame->0
        },
        layout.frame is None ==> crate::font_raster::face_metrics(
            glyphs,
            drawn,
            frame,
            layout,
        ).leading == frame.leading,
{
    let framed = crate::font_raster::framed_glyphs(glyphs, drawn, frame);
    framed_glyphs_are_of_the_face(glyphs, drawn, frame);
    let heights = Seq::new(framed.len(), |k: int| -(framed[k].origin_y as int));
    let depths = Seq::new(
        framed.len(),
        |k: int| framed[k].origin_y as int + framed[k].height as int,
    );
    let k = choose|k: int| 0 <= k < framed.len() && framed[k] == glyphs[i];
    greatest_is_reached(heights);
    greatest_is_reached(depths);
    assert(heights[k] == -glyphs[i].origin_y);
    assert(depths[k] == glyphs[i].origin_y + glyphs[i].height);
    let highest = crate::font_raster::greatest(heights);
    let deepest = crate::font_raster::greatest(depths);
    let h = choose|h: int| 0 <= h < heights.len() && heights[h] == highest;
    let d = choose|d: int| 0 <= d < depths.len() && depths[d] == deepest;
    assert(glyphs.contains(framed[h]));
    assert(glyphs.contains(framed[d]));
    let gh = choose|g: int| 0 <= g < glyphs.len() && glyphs[g] == framed[h];
    let gd = choose|g: int| 0 <= g < glyphs.len() && glyphs[g] == framed[d];
    assert(-glyphs[gh].origin_y == highest);
    assert(glyphs[gd].origin_y + glyphs[gd].height == deepest);
}

/// No glyph of a face is wider than its greatest width, which is the width of
/// a glyph unless the layout or the frame names a greater one.
pub proof fn face_is_as_wide_as_its_glyphs(
    glyphs: Seq<Glyph>,
    frame: DrawnFrame,
    layout: Layout,
    i: int,
)
    requires
        0 <= i < glyphs.len(),
    ensures
        glyphs[i].advance <= crate::font_raster::face_wid_max(glyphs, frame, layout),
        layout.wid_max is Some ==> layout.wid_max->0 <= crate::font_raster::face_wid_max(
            glyphs,
            frame,
            layout,
        ),
        layout.wid_max is None && layout.advances is None && frame.max_width is Some
            ==> frame.max_width->0 <= crate::font_raster::face_wid_max(glyphs, frame, layout),
        ({
            let widest = crate::font_raster::face_wid_max(glyphs, frame, layout);
            ||| exists|k: int|
                0 <= k < glyphs.len() && widest == (#[trigger] glyphs[k]).advance
            ||| layout.wid_max is Some && widest == layout.wid_max->0
            ||| layout.wid_max is None && layout.advances is None && frame.max_width is Some && widest
                == frame.max_width->0
        }),
{
    let advances = Seq::new(glyphs.len(), |k: int| glyphs[k].advance as int);
    greatest_is_reached(advances);
    assert(advances[i] == glyphs[i].advance);
    let widest = crate::font_raster::greatest(advances);
    let k = choose|k: int| 0 <= k < advances.len() && advances[k] == widest;
    assert(glyphs[k].advance == widest);
}

/// A layout moves a glyph: its advance where it names advances, its bearing
/// where it names bearings and the glyph is of a strike; the mask and the rest
/// stay.
pub proof fn layout_moves_what_it_names(glyph: Glyph, from_strike: bool, index: int, layout: Layout)
    ensures
        ({
            let moved = crate::font_raster::laid_out(glyph, from_strike, index, layout);
            &&& layout.advances is Some ==> moved.advance == layout.advances->0@[index]
            &&& layout.advances is None ==> moved.advance == glyph.advance
            &&& layout.bearings is Some && from_strike ==> (moved.origin_x
                - layout.bearings->0@[index]) % 256 == 0
            &&& layout.bearings is None || !from_strike ==> moved.origin_x == glyph.origin_x
            &&& moved.width == glyph.width
            &&& moved.height == glyph.height
            &&& moved.origin_y == glyph.origin_y
            &&& moved.data_offset == glyph.data_offset
        }),
{
}

/// A glyph is as wide and as high as its outline and starts where it does;
/// one without an outline only advances.
pub proof fn glyph_follows_its_outline(drawn: DrawnGlyph, data_offset: int)
    requires
        drawn.fits(),
        0 <= data_offset <= usize::MAX,
    ensures
        ({
            let glyph = drawn.glyph(data_offset);
            &&& glyph.advance == drawn.advance
            &&& glyph.data_offset == data_offset
            &&& drawn.outline is Some ==> {
                &&& glyph.width == drawn.outline->0.width
                &&& glyph.height == drawn.outline->0.height
                &&& glyph.origin_x == drawn.outline->0.left
                &&& glyph.origin_y == -drawn.outline->0.top
            }
            &&& drawn.outline is None ==> glyph.width == 0 && glyph.height == 0
        }),
{
}

/// The glyphs behind the basic ones have the upper codes in turn.
pub proof fn upper_glyphs_have_the_upper_codes(glyphs: Seq<Glyph>, code: u8)
    requires
        glyphs.len() == ASCII_GLYPHS + 128,
        code >= 128,
    ensures
        crate::font_raster::extension_glyphs(glyphs).len() == 128,
        crate::font_raster::extension_glyphs(glyphs)[code - 128].mac_code == code,
        crate::font_raster::extension_glyphs(glyphs)[code - 128].glyph == glyphs[ASCII_GLYPHS + code
            - 128],
{
}

/// A request without a size is one for the standard size; a size that is
/// named is kept, and what is drawn is at least one high.
pub proof fn named_sizes_are_kept(size: i16)
    ensures
        size != 0 ==> crate::font_faces::requested_size(size) == size,
        size > 0 ==> crate::font_faces::drawable_size(size) == size,
        crate::font_faces::drawable_size(size) >= 1,
        size < 0 ==> crate::font_faces::drawable_size(size) == 1,
        crate::font_faces::drawable_size(0) == crate::font_faces::requested_size(0),
        crate::font_faces::requested_size(0) == 12,
{
}

/// The strike that is found for a size is of the family, no other of it is
/// nearer to the size, and of two that are as near it is the larger.
pub proof fn found_strike_is_the_nearest(
    table: Map<(i16, i16), usize>,
    font_id: i16,
    size: i16,
    chosen: i16,
    other: i16,
)
    requires
        crate::font_faces::is_closest(table, font_id, size, chosen),
        table.dom().contains((font_id, other)),
    ensures
        table.dom().contains((font_id, chosen)),
        crate::font_faces::closest_strike(table, font_id, size) == Some(table[(font_id, chosen)]),
        -crate::font_faces::size_distance(other, size) <= chosen - size
            <= crate::font_faces::size_distance(other, size),
        crate::font_faces::size_distance(chosen, size) == crate::font_faces::size_distance(
            other,
            size,
        ) ==> chosen >= other,
        crate::font_faces::size_distance(other, size) == other - size
            || crate::font_faces::size_distance(other, size) == size - other,
        crate::font_faces::size_distance(other, size) >= 0,
{
    let found = choose|found: i16| crate::font_faces::is_closest(table, font_id, size, found);
    crate::font_faces::lemma_closest_is_one(table, font_id, size, found, chosen);
    assert(table.dom().contains((font_id, chosen)));
}

/// Of the faces of one family and size, the last is found; a family and size
/// of which there is none is not found.
pub proof fn last_face_of_a_key_is_found(faces: Seq<FontFace>, i: int, key: (i16, i16))
    requires
        0 <= i < faces.len(),
        (faces[i].font_id, faces[i].size) == key,
        forall|k: int| i < k < faces.len() ==> ((#[trigger] faces[k]).font_id, faces[k].size) != key,
    ensures
        crate::font_faces::faces_by_key(faces).dom().contains(key),
        crate::font_faces::faces_by_key(faces)[key] == faces[i],
    decreases faces.len(),
{
    if i < faces.len() - 1 {
        let shorter = faces.drop_last();
        assert(shorter[i] == faces[i]);
        assert forall|k: int| i < k < shorter.len() implies ((#[trigger] shorter[k]).font_id, shorter[k].size)
            != key by {
            assert(shorter[k] == faces[k]);
        }
        last_face_of_a_key_is_found(shorter, i, key);
        assert((faces[faces.len() - 1].font_id, faces[faces.len() - 1].size) != key);
    }
}

/// A key that is found is that of a face.
pub proof fn found_key_is_of_a_face(faces: Seq<FontFace>, key: (i16, i16))
    requires
        crate::font_faces::faces_by_key(faces).dom().contains(key),
    ensures
        exists|i: int|
            0 <= i < faces.len() && ((#[trigger] faces[i]).font_id, faces[i].size) == key
                && crate::font_faces::faces_by_key(faces)[key] == faces[i],
    decreases faces.len(),
{
    if faces.len() > 0 {
        let last = faces.last();
        if (last.font_id, last.size) == key {
            assert(faces[faces.len() - 1] == last);
        } else {
            let shorter = faces.drop_last();
            found_key_is_of_a_face(shorter, key);
            let i = choose|i: int|
                0 <= i < shorter.len() && ((#[trigger] shorter[i]).font_id, shorter[i].size) == key
                    && crate::font_faces::faces_by_key(shorter)[key] == shorter[i];
            assert(faces[i] == shorter[i]);
        }
    }
}

/// Of the glyphs with one code, the first is found; a code of which there is
/// none is not found.
pub proof fn first_glyph_of_a_code_is_found(face: MacRomanFace, mac_code: u8, i: int)
    requires
        0 <= i < face.glyphs@.len(),
        face.glyphs@[i].mac_code == mac_code,
        forall|k: int| 0 <= k < i ==> (#[trigger] face.glyphs@[k]).mac_code != mac_code,
    ensures
        crate::font_faces::glyph_in(face, mac_code) == Some((face.glyphs@[i].glyph, face.data@)),
{
    lemma_code_position(face, mac_code, 0, i);
}

proof fn lemma_code_position(face: MacRomanFace, mac_code: u8, from: nat, i: int)
    requires
        from <= i < face.glyphs@.len(),
        face.glyphs@[i].mac_code == mac_code,
        forall|k: int| from <= k < i ==> (#[trigger] face.glyphs@[k]).mac_code != mac_code,
    ensures
        crate::font_faces::code_position(face, mac_code, from) == i,
    decreases i - from,
{
    if from < i {
        assert(face.glyphs@[from as int].mac_code != mac_code);
        lemma_code_position(face, mac_code, from + 1, i);
    }
}

/// What is found under a code has it.
pub proof fn found_glyph_has_the_code(face: MacRomanFace, mac_code: u8)
    ensures
        crate::font_faces::glyph_in(face, mac_code) is Some <==> exists|i: int|
            0 <= i < face.glyphs@.len() && (#[trigger] face.glyphs@[i]).mac_code == mac_code,
        crate::font_faces::glyph_in(face, mac_code) is Some ==> exists|i: int|
            0 <= i < face.glyphs@.len() && (#[trigger] face.glyphs@[i]).mac_code == mac_code
                && crate::font_faces::glyph_in(face, mac_code)->0 == (
                face.glyphs@[i].glyph,
                face.data@,
            ),
{
    lemma_code_from(face, mac_code, 0);
    let position = crate::font_faces::code_position(face, mac_code, 0);
    if position < face.glyphs@.len() {
        assert(face.glyphs@[position].mac_code == mac_code);
    }
}

proof fn lemma_code_from(face: MacRomanFace, mac_code: u8, from: nat)
    requires
        from <= face.glyphs@.len(),
    ensures
        from <= crate::font_faces::code_position(face, mac_code, from) <= face.glyphs@.len(),
        crate::font_faces::code_position(face, mac_code, from) < face.glyphs@.len()
            ==> face.glyphs@[crate::font_faces::code_position(face, mac_code, from)].mac_code
            == mac_code,
        forall|k: int|
            from <= k < crate::font_faces::code_position(face, mac_code, from) ==> (
            #[trigger] face.glyphs@[k]).mac_code != mac_code,
    decreases face.glyphs@.len() - from,
{
    if from < face.glyphs@.len() && face.glyphs@[from as int].mac_code != mac_code {
        lemma_code_from(face, mac_code, from + 1);
    }
}

/// A request that nothing serves exactly is served by a strike of the family
/// where there is one, and by an outline only where there is none; the outline
/// is of the request's size up to the largest.
pub proof fn fallback_prefers_the_family(catalogue: FontCatalogue, font_id: i16, size: i16)
    requires
        size >= 1,
        catalogue.face_index(font_id, size) is None,
    ensures
        crate::font_faces::has_strike(catalogue.resource_faces@, font_id)
            ==> catalogue.resolved_index(font_id, size) == crate::font_faces::closest_strike(
            catalogue.resource_faces@,
            font_id,
            size,
        ),
        !crate::font_faces::has_strike(catalogue.resource_faces@, font_id)
            ==> catalogue.resolved_index(font_id, size) == catalogue.fallback_index(font_id, size),
        size <= crate::font_faces::LARGEST_OUTLINE_SIZE && catalogue.outline_index(font_id, size)
            is Some ==> catalogue.fallback_index(font_id, size) == catalogue.outline_index(
            font_id,
            size,
        ),
        size > crate::font_faces::LARGEST_OUTLINE_SIZE ==> catalogue.fallback_index(font_id, size)
            == catalogue.fallback_index(font_id, crate::font_faces::LARGEST_OUTLINE_SIZE),
{
}

/// A strike is asked for a glyph that it maps a character to, and for none
/// where it maps to the missing glyph or to nothing; an outline is asked for
/// its own mapping first, for that of the Macintosh table next, and for the
/// missing glyph last.
pub proof fn mapped_glyph_is_chosen(id: u32, mac_id: u16)
    ensures
        id != 0 ==> crate::font_charmap::strike_choice(Some(id)) == Some(id),
        crate::font_charmap::strike_choice(Some(0)) is None,
        crate::font_charmap::strike_choice(None) is None,
        crate::font_charmap::outline_choice(Some(id), Some(mac_id)) == id,
        crate::font_charmap::outline_choice(Some(id), None) == id,
        crate::font_charmap::outline_choice(None, Some(mac_id)) == mac_id,
        crate::font_charmap::outline_choice(None, None) == 0,
{
}

/// A symbol comes from the primary font where that maps it, from the symbol
/// font where only that does, and from nowhere else; a primary font that
/// cannot be read has none.
pub proof fn symbol_comes_from_the_font_that_maps_it(
    primary: Option<Option<u32>>,
    symbols: Option<Option<u32>>,
)
    ensures
        ({
            let choice = crate::font_charmap::symbol_choice(primary, symbols);
            &&& choice is Some && !(choice->0).1 ==> primary == Some(Some((choice->0).0))
            &&& choice is Some && (choice->0).1 ==> primary == Some(None::<u32>) && symbols == Some(
                Some((choice->0).0),
            )
            &&& primary is Some && primary->0 is Some ==> choice is Some && !(choice->0).1
            &&& primary is Some && primary->0 is None && symbols is Some && symbols->0 is Some
                ==> choice is Some && (choice->0).1
            &&& primary is None ==> choice is None
        }),
{
}

/// The first Macintosh table of those that can be read is the one that is
/// found.
pub proof fn first_macintosh_table_is_found(cmap: Seq<u8>, index: u16, count: u16)
    ensures
        match crate::font_charmap::macintosh_subtable(cmap, index, count) {
            Some(found) => {
                &&& index <= found < count
                &&& crate::font_charmap::platform_of(cmap, found) == Some(FontPlatform::Macintosh)
                &&& forall|i: u16|
                    index <= i < found ==> (#[trigger] crate::font_charmap::platform_of(cmap, i))
                        is Some && crate::font_charmap::platform_of(cmap, i) != Some(
                        FontPlatform::Macintosh,
                    )
            },
            None => (forall|i: u16|
                index <= i < count ==> (#[trigger] crate::font_charmap::platform_of(cmap, i)) is Some)
                ==> forall|i: u16|
                index <= i < count ==> (#[trigger] crate::font_charmap::platform_of(cmap, i)) != Some(
                    FontPlatform::Macintosh,
                ),
        },
    decreases count - index,
{
    if index < count {
        match crate::font_charmap::platform_of(cmap, index) {
            None => {},
            Some(platform) => {
                if platform != FontPlatform::Macintosh {
                    first_macintosh_table_is_found(cmap, (index + 1) as u16, count);
                }
            },
        }
    }
}

/// A word is its two bytes, the first the weightier; a long its four.
pub proof fn font_numbers_are_big_endian(bytes: Seq<u8>, at: int)
    requires
        0 <= at,
        at + 4 <= bytes.len(),
    ensures
        crate::font_tables::word_at(bytes, at) == 256 * bytes[at] + bytes[at + 1],
        crate::font_tables::long_at(bytes, at) == 0x100_0000 * bytes[at] + 0x1_0000 * bytes[at + 1]
            + 0x100 * bytes[at + 2] + bytes[at + 3],
        crate::font_tables::long_at(bytes, at) == 0x1_0000 * crate::font_tables::word_at(bytes, at)
            + crate::font_tables::word_at(bytes, at + 2),
{
    let four = bytes.subrange(at, at + 4);
    assert(four[0] == bytes[at]);
    assert(four[1] == bytes[at + 1]);
    assert(four[2] == bytes[at + 2]);
    assert(four[3] == bytes[at + 3]);
}

/// A table is read where the last entry with its tag places it, and is there
/// where that place lies in the font.
pub proof fn table_lies_where_the_directory_places_it(
    font: Seq<u8>,
    directory: Seq<(u32, u32, u32)>,
    tag: u32,
    i: int,
    k: int,
)
    requires
        0 <= i < directory.len(),
        directory[i].0 == tag,
        forall|j: int| i < j < directory.len() ==> (#[trigger] directory[j]).0 != tag,
    ensures
        crate::font_tables::table_in(font, directory, tag) is Some <==> directory[i].1
            + directory[i].2 <= font.len(),
        crate::font_tables::table_in(font, directory, tag) is Some
            ==> crate::font_tables::table_in(font, directory, tag)->0.len() == directory[i].2,
        crate::font_tables::table_in(font, directory, tag) is Some && 0 <= k < directory[i].2
            ==> crate::font_tables::table_in(font, directory, tag)->0[k] == font[directory[i].1 + k],
    decreases directory.len(),
{
    if i < directory.len() - 1 {
        let shorter = directory.drop_last();
        assert(shorter[i] == directory[i]);
        assert(directory[directory.len() - 1].0 != tag);
        assert forall|j: int| i < j < shorter.len() implies (#[trigger] shorter[j]).0 != tag by {
            assert(shorter[j] == directory[j]);
        }
        table_lies_where_the_directory_places_it(font, shorter, tag, i, k);
    }
}

/// The faces that override others are those under the keys of the overrides.
pub proof fn override_faces_are_under_their_keys(catalogue: FontCatalogue, key: (i16, i16))
    requires
        catalogue.wf(),
    ensures
        catalogue.overrides().dom().contains(key) <==> catalogue.override_faces@.dom().contains(key),
        catalogue.overrides().dom().contains(key) ==> (
            catalogue.overrides()[key].font_id,
            catalogue.overrides()[key].size,
        ) == key,
{
    if catalogue.override_faces@.dom().contains(key) {
        assert(catalogue.holds_face(catalogue.override_faces@[key], key));
    }
}

} // verus!
