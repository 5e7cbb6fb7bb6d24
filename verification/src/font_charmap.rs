//! Which glyph of a font draws a character.

use crate::font_tables::{find_character_map, subtable_count};
use skrifa::MetadataProvider;
use vstd::prelude::*;

verus! {

/// The glyph that a font's Unicode character map gives a character; the outer
/// `None` stands for bytes that are not a font.
pub uninterp spec fn unicode_map(font: Seq<u8>, character: char) -> Option<Option<u32>>;

/// The platform of a subtable of a character map, where the subtable can be
/// read.
pub uninterp spec fn platform_of(cmap: Seq<u8>, index: u16) -> Option<FontPlatform>;

/// The glyph that a subtable of a character map gives a code.
pub uninterp spec fn subtable_map(cmap: Seq<u8>, index: u16, code: u32) -> Option<u16>;

/// The platform that a character map subtable is made for.
#[derive(Clone, Copy, Debug, PartialEq, Eq, Structural)]
pub enum FontPlatform {
    Unicode,
    Macintosh,
    Iso,
    Windows,
    Custom,
}

/// The number of a platform in a font file.
pub open spec fn platform_number(platform: FontPlatform) -> int {
    match platform {
        FontPlatform::Unicode => 0,
        FontPlatform::Macintosh => 1,
        FontPlatform::Iso => 2,
        FontPlatform::Windows => 3,
        FontPlatform::Custom => 4,
    }
}

/// Calls `skrifa::FontRef::new` and, on the font, `charmap` and
/// `Charmap::map`. The result is the nominal glyph of the character, and it
/// depends on the bytes and the character alone.
#[verifier::external_body]
fn unicode_glyph_id(font: &[u8], character: char) -> (glyph: Option<Option<u32>>)
    ensures
        glyph == unicode_map(font@, character),
{
    let font = skrifa::FontRef::new(font).ok()?;
    Some(font.charmap().map(character).map(|id| id.to_u32()))
}

/// Calls `ttf_parser::cmap::Subtables::get` on a character map and returns the
/// platform of what it finds, which is the one that the subtable is listed
/// for. The result depends on the bytes and the index alone. In a build with
/// debug assertions the call panics on a count that reaches past the largest
/// 32-bit offset.
#[verifier::external_body]
fn subtable_platform(cmap: &[u8], index: u16) -> (platform: Option<FontPlatform>)
    requires
        crate::font_tables::subtable_fits(cmap@, index as int),
    ensures
        platform == platform_of(cmap@, index),
        platform matches Some(found) ==> platform_number(found)
            == crate::font_tables::listed_platform(cmap@, index as int),
{
    match ttf_parser::cmap::Table::parse(cmap)?.subtables.get(index)?.platform_id {
        ttf_parser::PlatformId::Unicode => Some(FontPlatform::Unicode),
        ttf_parser::PlatformId::Macintosh => Some(FontPlatform::Macintosh),
        ttf_parser::PlatformId::Iso => Some(FontPlatform::Iso),
        ttf_parser::PlatformId::Windows => Some(FontPlatform::Windows),
        ttf_parser::PlatformId::Custom => Some(FontPlatform::Custom),
    }
}

/// Calls `ttf_parser::cmap::Subtable::glyph_index` on one subtable of a
/// character map. The result depends on the bytes, the index and the code
/// alone. In a build with debug assertions the subtable is not read where a
/// count in it reaches past the largest 32-bit offset.
#[verifier::external_body]
fn subtable_glyph(cmap: &[u8], index: u16, code: u32) -> (glyph: Option<u16>)
    requires
        crate::font_tables::subtable_fits(cmap@, index as int),
    ensures
        glyph == subtable_map(cmap@, index, code),
{
    let subtables = ttf_parser::cmap::Table::parse(cmap)?.subtables;
    Some(subtables.get(index)?.glyph_index(code)?.0)
}

/// The first readable subtable from `index` on for the Macintosh platform. A
/// subtable that cannot be read ends the search.
pub open spec fn macintosh_subtable(cmap: Seq<u8>, index: u16, count: u16) -> Option<u16>
    decreases count - index,
{
    if index >= count {
        None
    } else {
        match platform_of(cmap, index) {
            None => None,
            Some(platform) => if platform == FontPlatform::Macintosh {
                Some(index)
            } else {
                macintosh_subtable(cmap, (index + 1) as u16, count)
            },
        }
    }
}

/// The glyph of a pixel strike for a character; the missing glyph does not
/// count.
pub open spec fn strike_choice(mapped: Option<u32>) -> Option<u32> {
    match mapped {
        Some(id) => if id != 0 {
            Some(id)
        } else {
            None
        },
        None => None,
    }
}

/// The glyph of an outline for a character: by its Unicode map, else by its
/// Macintosh map, else the missing glyph.
pub open spec fn outline_choice(mapped: Option<u32>, macintosh: Option<u16>) -> u32 {
    match mapped {
        Some(id) => id,
        None => match macintosh {
            Some(id) => id as u32,
            None => 0,
        },
    }
}

/// The glyph of a Mac Roman code by the Macintosh subtable of a character map.
pub open spec fn macintosh_map(cmap: Option<Seq<u8>>, code: Option<u8>) -> Option<u16> {
    match (code, cmap) {
        (Some(code), Some(cmap)) => match crate::font_tables::subtable_total(cmap) {
            Some(count) => match macintosh_subtable(cmap, 0, count) {
                Some(index) => subtable_map(cmap, index, code as u32),
                None => None,
            },
            None => None,
        },
        _ => None,
    }
}

/// The glyph of a pixel strike for a character; the missing glyph does not
/// count.
pub fn chosen_strike_glyph(mapped: Option<u32>) -> (glyph: Option<u32>)
    ensures
        glyph == strike_choice(mapped),
{
    match mapped {
        Some(id) => if id != 0 {
            Some(id)
        } else {
            None
        },
        None => None,
    }
}

/// The glyph of an outline for a character, where its maps gave these.
pub fn chosen_outline_glyph(mapped: Option<u32>, macintosh: Option<u16>) -> (glyph: u32)
    ensures
        glyph == outline_choice(mapped, macintosh),
{
    match mapped {
        Some(id) => id,
        None => match macintosh {
            Some(id) => id as u32,
            None => 0,
        },
    }
}

/// The glyph of a pixel strike for a character. There is none where the bytes
/// are not a font or the font lacks the character.
pub fn strike_glyph(font: &[u8], character: char) -> (glyph: Option<u32>)
    ensures
        glyph == (match unicode_map(font@, character) {
            Some(mapped) => strike_choice(mapped),
            None => None,
        }),
{
    match unicode_glyph_id(font, character) {
        Some(mapped) => chosen_strike_glyph(mapped),
        None => None,
    }
}

/// The glyph of a Mac Roman code by the Macintosh subtable of a character map.
fn macintosh_glyph(cmap: &[u8], code: u8) -> (glyph: Option<u16>)
    requires
        crate::font_tables::character_map_fits(cmap@),
    ensures
        glyph == macintosh_map(Some(cmap@), Some(code)),
{
    let total: u16 = match subtable_count(cmap) {
        Some(total) => total,
        None => {
            return None;
        },
    };
    let mut index: u16 = 0;
    while index < total
        invariant
            index <= total,
            crate::font_tables::subtable_total(cmap@) == Some(total),
            crate::font_tables::character_map_fits(cmap@),
            crate::font_tables::is_searched(cmap@, index as int),
            macintosh_subtable(cmap@, 0, total) == macintosh_subtable(cmap@, index, total),
        decreases total - index,
    {
        assert(crate::font_tables::subtable_fits(cmap@, index as int));
        match subtable_platform(cmap, index) {
            None => {
                return None;
            },
            Some(platform) => {
                if platform == FontPlatform::Macintosh {
                    return subtable_glyph(cmap, index, code as u32);
                }
            },
        }
        index += 1;
    }
    None
}

/// The glyph of an outline for a character with this Mac Roman code. The
/// result is `None` where the bytes are not a font.
pub fn outline_glyph(font: &[u8], character: char, mac_code: Option<u8>) -> (glyph: Option<u32>)
    requires
        crate::font_tables::font_fits(font@),
    ensures
        glyph == (match (
            unicode_map(font@, character),
            crate::font_tables::character_map(font@),
        ) {
            (Some(mapped), Some(cmap)) => Some(
                outline_choice(mapped, macintosh_map(cmap, mac_code)),
            ),
            _ => None,
        }),
{
    let mapped = match unicode_glyph_id(font, character) {
        Some(mapped) => mapped,
        None => {
            return None;
        },
    };
    let cmap = match find_character_map(font) {
        Some(cmap) => cmap,
        None => {
            return None;
        },
    };
    let macintosh = match (cmap, mac_code) {
        (Some(cmap), Some(code)) => macintosh_glyph(cmap, code),
        _ => None,
    };
    Some(chosen_outline_glyph(mapped, macintosh))
}

/// Which of two fonts draws a character: the first where it has the character,
/// else the second. The result is the glyph, and whether it is the second's.
pub fn symbol_glyph(primary: &[u8], symbols: &[u8], character: char) -> (glyph: Option<(u32, bool)>)
    ensures
        glyph == symbol_choice(
            unicode_map(primary@, character),
            unicode_map(symbols@, character),
        ),
{
    let first = unicode_glyph_id(primary, character);
    let second = unicode_glyph_id(symbols, character);
    chosen_symbol_glyph(first, second)
}

/// The glyph that two maps of one character give, and whether it is the
/// second's. A first font that cannot be read gives none.
pub open spec fn symbol_choice(
    primary: Option<Option<u32>>,
    symbols: Option<Option<u32>>,
) -> Option<(u32, bool)> {
    match primary {
        None => None,
        Some(Some(id)) => Some((id, false)),
        Some(None) => match symbols {
            Some(Some(id)) => Some((id, true)),
            _ => None,
        },
    }
}

/// The glyph that two maps of one character give.
pub fn chosen_symbol_glyph(primary: Option<Option<u32>>, symbols: Option<Option<u32>>) -> (glyph: Option<
    (u32, bool),
>)
    ensures
        glyph == symbol_choice(primary, symbols),
{
    match primary {
        None => None,
        Some(Some(id)) => Some((id, false)),
        Some(None) => match symbols {
            Some(Some(id)) => Some((id, true)),
            _ => None,
        },
    }
}

} // verus!
