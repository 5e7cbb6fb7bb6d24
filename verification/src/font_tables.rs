//! The tables of a font file: where they lie, and which counts in them are too
//! large to read.

use crate::guest_memory::from_word_bytes;
use vstd::prelude::*;
use vstd::slice::slice_subrange;

verus! {

/// The tag of a file with several faces.
pub const COLLECTION_TAG: u32 = 0x7474_6366;

pub const HEAD_TAG: u32 = 0x6865_6164;

pub const HHEA_TAG: u32 = 0x6868_6561;

pub const MAXP_TAG: u32 = 0x6d61_7870;

pub const CMAP_TAG: u32 = 0x636d_6170;

/// The number that two bytes spell, most significant byte first.
pub open spec fn word_at(bytes: Seq<u8>, at: int) -> int {
    bytes[at] * 0x100 + bytes[at + 1]
}

/// The number that four bytes spell, most significant byte first.
pub open spec fn long_at(bytes: Seq<u8>, at: int) -> int {
    crate::guest_memory::big_endian(bytes.subrange(at, at + 4))
}

fn read_word(bytes: &[u8], at: usize) -> (value: u16)
    requires
        at + 2 <= bytes@.len(),
    ensures
        value == word_at(bytes@, at as int),
{
    (bytes[at] as u16) * 0x100 + (bytes[at + 1] as u16)
}

fn read_long(bytes: &[u8], at: usize) -> (value: u32)
    requires
        at + 4 <= bytes@.len(),
    ensures
        value == long_at(bytes@, at as int),
{
    from_word_bytes(bytes[at], bytes[at + 1], bytes[at + 2], bytes[at + 3])
}

/// The tags with which a face begins: TrueType, Apple's TrueType and OpenType.
pub open spec fn is_face_tag(tag: int) -> bool {
    tag == 0x0001_0000 || tag == 0x7472_7565 || tag == 0x4f54_544f
}

pub open spec fn is_collection(font: Seq<u8>) -> bool {
    font.len() >= 4 && long_at(font, 0) == COLLECTION_TAG
}

/// Where the first face of a collection starts. There is none where the list
/// of faces is empty or does not lie in the file, or the face starts inside
/// the list or behind the file.
pub open spec fn first_face(font: Seq<u8>) -> Option<int> {
    let list_end = 12 + 4 * long_at(font, 8);
    let start = long_at(font, 12);
    if font.len() < 12 || long_at(font, 8) == 0 || list_end > font.len() || start < list_end || start
        > font.len() {
        None
    } else {
        Some(start)
    }
}

/// Where the table directory of the first face starts, behind the face's tag.
pub open spec fn directory_start(font: Seq<u8>) -> Option<int> {
    if font.len() < 4 {
        None
    } else if is_face_tag(long_at(font, 0)) {
        Some(4)
    } else if is_collection(font) {
        match first_face(font) {
            Some(start) => if start + 4 <= font.len() && is_face_tag(long_at(font, start)) {
                Some(start + 4)
            } else {
                None
            },
            None => None,
        }
    } else {
        None
    }
}

/// The tag, position and length of each table of the first face.
pub open spec fn table_directory(font: Seq<u8>) -> Option<Seq<(u32, u32, u32)>> {
    match directory_start(font) {
        None => None,
        Some(start) => {
            let count = word_at(font, start);
            if start + 2 > font.len() || start + 8 + 16 * count > font.len() {
                None
            } else {
                Some(
                    Seq::new(
                        count as nat,
                        |i: int|
                            (
                                long_at(font, start + 8 + 16 * i) as u32,
                                long_at(font, start + 16 + 16 * i) as u32,
                                long_at(font, start + 20 + 16 * i) as u32,
                            ),
                    ),
                )
            }
        },
    }
}

/// The directory of the first face has fewer tables than 16 bits can count.
/// The list of faces and the table directory of a collection end below the
/// largest 32-bit offset.
pub open spec fn directory_fits(font: Seq<u8>) -> bool {
    &&& match directory_start(font) {
        Some(start) => start + 2 <= font.len() ==> word_at(font, start) < 0xffff,
        None => true,
    }
    &&& is_collection(font) && font.len() >= 12 ==> {
        &&& 12 + 4 * long_at(font, 8) <= u32::MAX
        &&& match first_face(font) {
            Some(start) => start + 12 + 16 * 0xffff <= u32::MAX,
            None => true,
        }
    }
}

/// Calls `ttf_parser::RawFace::parse` for the first face and lists its table
/// records. A file without a known tag, with a list of faces that is empty or
/// cut off, or with a directory that is cut off, has none. In a build with
/// debug assertions the call panics where it would read past the largest
/// 32-bit offset, and in one with overflow checks the walk over the records
/// panics behind the last of 0xffff.
#[verifier::external_body]
fn table_records(font: &[u8]) -> (records: Option<Vec<(u32, u32, u32)>>)
    requires
        directory_fits(font@),
    ensures
        match records {
            Some(records) => table_directory(font@) == Some(records@),
            None => table_directory(font@) is None,
        },
{
    let face = ttf_parser::RawFace::parse(font, 0).ok()?;
    let records = face.table_records.into_iter();
    Some(records.map(|record| (record.tag.0, record.offset, record.length)).collect())
}

/// The bytes of a table: of several with the tag the last counts. There are
/// none where it does not lie in the file.
pub open spec fn table_in(
    font: Seq<u8>,
    directory: Seq<(u32, u32, u32)>,
    tag: u32,
) -> Option<Seq<u8>>
    decreases directory.len(),
{
    if directory.len() == 0 {
        None
    } else if directory.last().0 == tag {
        let (_, at, len) = directory.last();
        if at + len <= font.len() {
            Some(font.subrange(at as int, at + len))
        } else {
            None
        }
    } else {
        table_in(font, directory.drop_last(), tag)
    }
}

fn find_table<'a>(font: &'a [u8], records: &Vec<(u32, u32, u32)>, tag: u32) -> (table: Option<
    &'a [u8],
>)
    ensures
        match table {
            Some(bytes) => table_in(font@, records@, tag) == Some(bytes@),
            None => table_in(font@, records@, tag) is None,
        },
{
    let mut left: usize = records.len();
    assert(records@.take(left as int) =~= records@);
    while left > 0
        invariant
            left <= records@.len(),
            table_in(font@, records@.take(left as int), tag) == table_in(font@, records@, tag),
        decreases left,
    {
        let (found, at, len) = records[left - 1];
        proof {
            assert(records@.take(left as int).drop_last() =~= records@.take(left - 1));
            assert(records@.take(left as int).last() == records@[left - 1]);
        }
        if found == tag {
            let end: u64 = at as u64 + len as u64;
            if end > font.len() as u64 {
                return None;
            }
            return Some(slice_subrange(font, at as usize, end as usize));
        }
        left -= 1;
    }
    None
}

/// The bytes of a table, or none.
pub open spec fn bytes_or_none(table: Option<Seq<u8>>) -> Seq<u8> {
    match table {
        Some(bytes) => bytes,
        None => Seq::empty(),
    }
}

/// The three tables that a face needs can be read.
pub open spec fn face_readable(head: Seq<u8>, hhea: Seq<u8>, maxp: Seq<u8>) -> bool {
    &&& head.len() >= 54
    &&& 16 <= word_at(head, 18) <= 16384
    &&& word_at(head, 50) <= 1
    &&& hhea.len() >= 36
    &&& maxp.len() >= 6
    &&& long_at(maxp, 0) == 0x0000_5000 || long_at(maxp, 0) == 0x0001_0000
    &&& word_at(maxp, 4) != 0
}

/// Calls `ttf_parser::Face::from_raw_tables` on the three tables that a face
/// needs and tells whether it can be made: the header has its length, 16 to
/// 16384 units per em and a known format of glyph positions, the horizontal
/// header has its length, and the profile is of a known version with at least
/// one glyph.
#[verifier::external_body]
fn is_face_readable(head: &[u8], hhea: &[u8], maxp: &[u8]) -> (readable: bool)
    ensures
        readable == face_readable(head@, hhea@, maxp@),
{
    let mut tables = ttf_parser::RawFaceTables::default();
    tables.head = head;
    tables.hhea = hhea;
    tables.maxp = maxp;
    ttf_parser::Face::from_raw_tables(tables).is_ok()
}

/// How many subtables a character map has; there is no count where the map is
/// cut off.
pub open spec fn subtable_total(cmap: Seq<u8>) -> Option<u16> {
    if cmap.len() < 4 || 4 + 8 * word_at(cmap, 2) > cmap.len() {
        None
    } else {
        Some(word_at(cmap, 2) as u16)
    }
}

/// Calls `ttf_parser::cmap::Table::parse` and `Subtables::len`: the map has as
/// many subtables as it says, where it holds their records.
#[verifier::external_body]
pub(crate) fn subtable_count(cmap: &[u8]) -> (count: Option<u16>)
    ensures
        count == subtable_total(cmap@),
{
    Some(ttf_parser::cmap::Table::parse(cmap)?.subtables.len())
}

/// The character map of the first face, as far as its subtables are listed.
/// The outer `None` stands for bytes that are not a font.
pub open spec fn character_map(font: Seq<u8>) -> Option<Option<Seq<u8>>> {
    match table_directory(font) {
        None => None,
        Some(directory) => if face_readable(
            bytes_or_none(table_in(font, directory, HEAD_TAG)),
            bytes_or_none(table_in(font, directory, HHEA_TAG)),
            bytes_or_none(table_in(font, directory, MAXP_TAG)),
        ) {
            match table_in(font, directory, CMAP_TAG) {
                Some(cmap) => if subtable_total(cmap) is Some {
                    Some(Some(cmap))
                } else {
                    Some(None)
                },
                None => Some(None),
            }
        } else {
            None
        },
    }
}

/// The character map of the first face.
pub(crate) fn find_character_map<'a>(font: &'a [u8]) -> (map: Option<Option<&'a [u8]>>)
    requires
        directory_fits(font@),
    ensures
        match map {
            Some(Some(cmap)) => character_map(font@) == Some(Some(cmap@)),
            Some(None) => character_map(font@) == Some(None::<Seq<u8>>),
            None => character_map(font@) is None,
        },
{
    let records = match table_records(font) {
        Some(records) => records,
        None => {
            return None;
        },
    };
    let (head, hhea, maxp) = match (
        find_table(font, &records, HEAD_TAG),
        find_table(font, &records, HHEA_TAG),
        find_table(font, &records, MAXP_TAG),
    ) {
        (Some(head), Some(hhea), Some(maxp)) => (head, hhea, maxp),
        _ => {
            return None;
        },
    };
    if !is_face_readable(head, hhea, maxp) {
        return None;
    }
    match find_table(font, &records, CMAP_TAG) {
        Some(cmap) => if subtable_count(cmap).is_some() {
            Some(Some(cmap))
        } else {
            Some(None)
        },
        None => Some(None),
    }
}

/// The number of the platform that a subtable is listed for.
pub open spec fn listed_platform(cmap: Seq<u8>, index: int) -> int {
    word_at(cmap, 4 + 8 * index)
}

/// The number of the Macintosh platform.
pub const MACINTOSH_PLATFORM: u16 = 1;

/// The greatest number of a platform.
pub const LAST_PLATFORM: u16 = 4;

/// The items that a subtable counts with 32 bits end below the largest 32-bit
/// offset. Only formats 10, 12, 13 and 14 count so.
pub open spec fn subtable_fits(cmap: Seq<u8>, index: int) -> bool {
    let platform = listed_platform(cmap, index);
    let start = long_at(cmap, 8 + 8 * index);
    let len = cmap.len() - start;
    let format = word_at(cmap, start);
    platform <= LAST_PLATFORM && len >= 2 ==> {
        &&& format == 10 && len >= 20 ==> 20 + 2 * long_at(cmap, start + 16) <= u32::MAX
        &&& (format == 12 || format == 13) && len >= 16 ==> 16 + 12 * long_at(cmap, start + 12)
            <= u32::MAX
        &&& format == 14 && len >= 10 ==> 10 + 11 * long_at(cmap, start + 6) <= u32::MAX
    }
}

/// The search for the Macintosh subtable may come to a subtable: each one
/// before it is listed for another known platform.
pub open spec fn is_searched(cmap: Seq<u8>, index: int) -> bool {
    forall|i: int|
        0 <= i < index ==> (#[trigger] listed_platform(cmap, i)) != MACINTOSH_PLATFORM
            && listed_platform(cmap, i) <= LAST_PLATFORM
}

/// Every subtable of a character map that the search for the Macintosh
/// subtable may come to fits.
pub open spec fn character_map_fits(cmap: Seq<u8>) -> bool {
    match subtable_total(cmap) {
        Some(count) => forall|i: int|
            0 <= i < count && is_searched(cmap, i) ==> #[trigger] subtable_fits(cmap, i),
        None => true,
    }
}

/// The counts of a font's directory and character map fit.
pub open spec fn font_fits(font: Seq<u8>) -> bool {
    &&& directory_fits(font)
    &&& match character_map(font) {
        Some(Some(cmap)) => character_map_fits(cmap),
        _ => true,
    }
}

fn is_face_tagged(tag: u32) -> (tagged: bool)
    ensures
        tagged == is_face_tag(tag as int),
{
    tag == 0x0001_0000 || tag == 0x7472_7565 || tag == 0x4f54_544f
}

/// Whether the count of tables at a place, where the file reaches it, can be
/// walked over.
fn does_count_fit(font: &[u8], at: usize) -> (fits: bool)
    requires
        at <= font@.len(),
    ensures
        fits == (at + 2 <= font@.len() ==> word_at(font@, at as int) < 0xffff),
{
    font.len() - at < 2 || read_word(font, at) < 0xffff
}

fn does_directory_fit(font: &[u8]) -> (fits: bool)
    ensures
        fits == directory_fits(font@),
{
    if font.len() < 4 {
        return true;
    }
    if is_face_tagged(read_long(font, 0)) {
        return does_count_fit(font, 4);
    }
    if font.len() < 12 || read_long(font, 0) != COLLECTION_TAG {
        return true;
    }
    let count: u64 = read_long(font, 8) as u64;
    let list_end: u64 = 12 + 4 * count;
    if list_end > u32::MAX as u64 {
        return false;
    }
    if count == 0 || list_end > font.len() as u64 {
        return true;
    }
    let start: u64 = read_long(font, 12) as u64;
    if start < list_end || start > font.len() as u64 {
        return true;
    }
    if start + 12 + 16 * 0xffff > u32::MAX as u64 {
        return false;
    }
    let start: usize = start as usize;
    font.len() - start < 4 || !is_face_tagged(read_long(font, start)) || does_count_fit(
        font,
        start + 4,
    )
}

fn does_subtable_fit(cmap: &[u8], index: u16) -> (fits: bool)
    requires
        subtable_total(cmap@) matches Some(count) && index < count,
    ensures
        fits == subtable_fits(cmap@, index as int),
{
    let record: usize = 4 + 8 * (index as usize);
    let platform: u16 = read_word(cmap, record);
    let start: u64 = read_long(cmap, record + 4) as u64;
    let total: u64 = cmap.len() as u64;
    if platform > LAST_PLATFORM || start > total || total - start < 2 {
        return true;
    }
    let start: usize = start as usize;
    let len: usize = cmap.len() - start;
    let format: u16 = read_word(cmap, start);
    if format == 10 && len >= 20 {
        return 20 + 2 * (read_long(cmap, start + 16) as u64) <= u32::MAX as u64;
    }
    if (format == 12 || format == 13) && len >= 16 {
        return 16 + 12 * (read_long(cmap, start + 12) as u64) <= u32::MAX as u64;
    }
    if format == 14 && len >= 10 {
        return 10 + 11 * (read_long(cmap, start + 6) as u64) <= u32::MAX as u64;
    }
    true
}

/// Whether the counts of a font's directory and character map fit, so that
/// the font can be asked for glyphs.
pub fn font_counts_fit(font: &[u8]) -> (fit: bool)
    ensures
        fit == font_fits(font@),
{
    if !does_directory_fit(font) {
        return false;
    }
    let cmap = match find_character_map(font) {
        Some(Some(cmap)) => cmap,
        _ => {
            return true;
        },
    };
    let count: u16 = match subtable_count(cmap) {
        Some(count) => count,
        None => {
            return true;
        },
    };
    let mut index: u16 = 0;
    while index < count
        invariant
            index <= count,
            directory_fits(font@),
            character_map(font@) == Some(Some(cmap@)),
            subtable_total(cmap@) == Some(count),
            is_searched(cmap@, index as int),
            forall|i: int| 0 <= i < index ==> #[trigger] subtable_fits(cmap@, i),
        decreases count - index,
    {
        if !does_subtable_fit(cmap, index) {
            assert(!subtable_fits(cmap@, index as int));
            return false;
        }
        let platform: u16 = read_word(cmap, 4 + 8 * (index as usize));
        assert(platform == listed_platform(cmap@, index as int));
        if platform == MACINTOSH_PLATFORM || platform > LAST_PLATFORM {
            proof {
                assert forall|i: int| 0 <= i < count && is_searched(cmap@, i) implies
                    #[trigger] subtable_fits(cmap@, i) by {
                    if i > index {
                        assert(listed_platform(cmap@, index as int) == platform);
                    }
                }
            }
            return true;
        }
        index += 1;
    }
    true
}

} // verus!
