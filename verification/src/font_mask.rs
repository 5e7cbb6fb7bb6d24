//! One-bit glyph masks from coverage.

use vstd::prelude::*;

verus! {

/// Coverage from which a pixel belongs to a one-bit mask.
pub const MONO_COVERAGE_THRESHOLD: u8 = 128;

/// Coverage below this is fringe rather than a stroke that crosses a row.
pub const MONO_DROPOUT_FLOOR: u8 = 64;

/// The pixels that reach the threshold.
pub open spec fn thresholded(coverage: Seq<u8>) -> Seq<u8> {
    Seq::new(
        coverage.len(),
        |i: int|
            if coverage[i] >= MONO_COVERAGE_THRESHOLD {
                255u8
            } else {
                0u8
            },
    )
}

/// How much coverage there is.
pub open spec fn coverage_mass(coverage: Seq<u8>) -> nat
    decreases coverage.len(),
{
    if coverage.len() == 0 {
        0
    } else {
        coverage_mass(coverage.drop_last()) + coverage.last() as nat
    }
}

/// How many pixels reach the threshold.
pub open spec fn kept_pixels(coverage: Seq<u8>) -> nat
    decreases coverage.len(),
{
    if coverage.len() == 0 {
        0
    } else if coverage.last() >= MONO_COVERAGE_THRESHOLD {
        kept_pixels(coverage.drop_last()) + 1
    } else {
        kept_pixels(coverage.drop_last())
    }
}

/// The place of the greatest coverage in a row; of equal ones, the last.
pub open spec fn peak_position(row: Seq<u8>) -> int
    decreases row.len(),
{
    if row.len() <= 1 {
        0
    } else {
        let before = peak_position(row.drop_last());
        if row.last() >= row[before] {
            row.len() - 1
        } else {
            before
        }
    }
}

/// A row of a mask holds no pixel.
pub open spec fn row_is_blank(mask: Seq<u8>, start: int, width: int) -> bool {
    forall|i: int| start <= i < start + width ==> (#[trigger] mask[i]) == 0
}

/// A mask whose blank row that a stroke crosses shows its strongest pixel.
pub open spec fn row_mended(mask: Seq<u8>, coverage: Seq<u8>, start: int, width: int) -> Seq<u8> {
    let peak = start + peak_position(coverage.subrange(start, start + width));
    if row_is_blank(mask, start, width) && coverage[peak] >= MONO_DROPOUT_FLOOR {
        mask.update(peak, 255)
    } else {
        mask
    }
}

/// A mask whose first rows are mended.
pub open spec fn rows_mended(mask: Seq<u8>, coverage: Seq<u8>, width: nat, rows: nat) -> Seq<u8>
    decreases rows,
{
    if rows == 0 {
        mask
    } else {
        row_mended(
            rows_mended(mask, coverage, width, (rows - 1) as nat),
            coverage,
            (rows - 1) * width,
            width as int,
        )
    }
}

/// The threshold has destroyed a glyph: what it keeps is less than half of
/// what the coverage adds up to.
pub open spec fn glyph_is_lost(coverage: Seq<u8>, width: nat, height: nat) -> bool {
    &&& width > 0
    &&& height > 0
    &&& width * height <= coverage.len()
    &&& kept_pixels(coverage) * 255 * 2 < coverage_mass(coverage.take((width * height) as int))
}

/// The one-bit mask of a glyph.
pub open spec fn mono_mask(coverage: Seq<u8>, width: nat, height: nat) -> Seq<u8> {
    if glyph_is_lost(coverage, width, height) {
        rows_mended(thresholded(coverage), coverage, width, height)
    } else {
        thresholded(coverage)
    }
}

pub proof fn lemma_mass_bound(coverage: Seq<u8>)
    ensures
        coverage_mass(coverage) <= 255 * coverage.len(),
        kept_pixels(coverage) <= coverage.len(),
    decreases coverage.len(),
{
    if coverage.len() > 0 {
        lemma_mass_bound(coverage.drop_last());
    }
}

proof fn lemma_mass_grows(coverage: Seq<u8>, count: int)
    requires
        0 <= count <= coverage.len(),
    ensures
        coverage_mass(coverage.take(count)) <= coverage_mass(coverage),
        kept_pixels(coverage.take(count)) <= kept_pixels(coverage),
    decreases coverage.len() - count,
{
    if count < coverage.len() {
        assert(coverage.take(count + 1).drop_last() =~= coverage.take(count));
        lemma_mass_grows(coverage, count + 1);
    } else {
        assert(coverage.take(count) =~= coverage);
    }
}

pub proof fn lemma_peak_position(row: Seq<u8>)
    requires
        row.len() > 0,
    ensures
        0 <= peak_position(row) < row.len(),
        forall|i: int| 0 <= i < row.len() ==> (#[trigger] row[i]) <= row[peak_position(row)],
        forall|i: int|
            peak_position(row) < i < row.len() ==> (#[trigger] row[i]) < row[peak_position(row)],
    decreases row.len(),
{
    if row.len() > 1 {
        let shorter = row.drop_last();
        lemma_peak_position(shorter);
        let before = peak_position(shorter);
        assert(shorter[before] == row[before]);
        assert forall|i: int| 0 <= i < row.len() implies (#[trigger] row[i])
            <= row[peak_position(row)] by {
            if i < row.len() - 1 {
                assert(shorter[i] == row[i]);
            }
        }
        assert forall|i: int| peak_position(row) < i < row.len() implies (#[trigger] row[i])
            < row[peak_position(row)] by {
            if i < row.len() - 1 {
                assert(shorter[i] == row[i]);
            }
        }
    }
}

/// Mending adds pixels: it keeps the length and every pixel of the mask, and
/// changes nothing behind the rows.
pub proof fn mending_keeps_every_pixel(mask: Seq<u8>, coverage: Seq<u8>, width: nat, rows: nat)
    requires
        width > 0,
        mask.len() == coverage.len(),
        width * rows <= coverage.len(),
    ensures
        rows_mended(mask, coverage, width, rows).len() == mask.len(),
        forall|i: int|
            0 <= i < mask.len() ==> (#[trigger] rows_mended(mask, coverage, width, rows)[i])
                == mask[i] || (mask[i] == 0 && rows_mended(mask, coverage, width, rows)[i] == 255),
        forall|i: int|
            width * rows <= i < mask.len() ==> (#[trigger] rows_mended(mask, coverage, width, rows)[i])
                == mask[i],
    decreases rows,
{
    if rows > 0 {
        let fewer = (rows - 1) as nat;
        assert(width * rows == width * fewer + width) by (nonlinear_arith)
            requires
                rows == fewer + 1,
        ;
        assert(fewer * width == width * fewer) by (nonlinear_arith);
        mending_keeps_every_pixel(mask, coverage, width, fewer);
        let row = coverage.subrange((fewer * width) as int, (fewer * width + width) as int);
        lemma_peak_position(row);
        assert((rows - 1) * width == fewer * width);
        let before = rows_mended(mask, coverage, width, fewer);
        let after = rows_mended(mask, coverage, width, rows);
        let start = (fewer * width) as int;
        let peak = start + peak_position(row);
        assert(after == row_mended(before, coverage, start, width as int));
        assert forall|i: int| 0 <= i < mask.len() implies (#[trigger] after[i]) == mask[i] || (
        mask[i] == 0 && after[i] == 255) by {
            assert(before[i] == mask[i] || (mask[i] == 0 && before[i] == 255));
            if i == peak && row_is_blank(before, start, width as int) {
                assert(before[i] == 0);
            }
        }
    }
}

/// A glyph mask is the threshold mask with pixels added, and its pixels are
/// black or white.
pub proof fn mask_keeps_the_threshold(coverage: Seq<u8>, width: nat, height: nat)
    ensures
        mono_mask(coverage, width, height).len() == coverage.len(),
        forall|i: int|
            0 <= i < coverage.len() ==> (#[trigger] mono_mask(coverage, width, height)[i]) == 0
                || mono_mask(coverage, width, height)[i] == 255,
        forall|i: int|
            0 <= i < coverage.len() && (#[trigger] coverage[i]) >= MONO_COVERAGE_THRESHOLD
                ==> mono_mask(coverage, width, height)[i] == 255,
{
    let plain = thresholded(coverage);
    if glyph_is_lost(coverage, width, height) {
        mending_keeps_every_pixel(plain, coverage, width, height);
        let mask = mono_mask(coverage, width, height);
        assert forall|i: int| 0 <= i < coverage.len() implies (#[trigger] mask[i]) == 0 || mask[i]
            == 255 by {
            assert(rows_mended(plain, coverage, width, height)[i] == mask[i]);
        }
        assert forall|i: int|
            0 <= i < coverage.len() && (#[trigger] coverage[i])
                >= MONO_COVERAGE_THRESHOLD implies mask[i] == 255 by {
            assert(rows_mended(plain, coverage, width, height)[i] == mask[i]);
        }
    }
}

/// Mending the rows behind a row leaves it as it is.
proof fn lemma_later_rows(
    mask: Seq<u8>,
    coverage: Seq<u8>,
    width: nat,
    from: nat,
    rows: nat,
    i: int,
)
    requires
        width > 0,
        from <= rows,
        mask.len() == coverage.len(),
        width * rows <= coverage.len(),
        0 <= i < width * from,
    ensures
        rows_mended(mask, coverage, width, rows)[i] == rows_mended(mask, coverage, width, from)[i],
    decreases rows,
{
    if rows > from {
        let fewer = (rows - 1) as nat;
        assert(width * rows == width * fewer + width) by (nonlinear_arith)
            requires
                rows == fewer + 1,
        ;
        assert(width * from <= width * fewer) by (nonlinear_arith)
            requires
                from <= fewer,
        ;
        assert(fewer * width == width * fewer) by (nonlinear_arith);
        mending_keeps_every_pixel(mask, coverage, width, fewer);
        lemma_later_rows(mask, coverage, width, from, fewer, i);
        let row = coverage.subrange((fewer * width) as int, (fewer * width + width) as int);
        lemma_peak_position(row);
        assert((rows - 1) * width == fewer * width);
    }
}

/// Where the threshold has destroyed a glyph, every row that a stroke crosses
/// shows ink.
pub proof fn crossed_rows_show_ink(coverage: Seq<u8>, width: nat, height: nat, y: nat, x: nat)
    requires
        glyph_is_lost(coverage, width, height),
        y < height,
        x < width,
        coverage[(y * width + x) as int] >= MONO_DROPOUT_FLOOR,
    ensures
        exists|i: int|
            y * width <= i < y * width + width && (#[trigger] mono_mask(coverage, width, height)[i])
                == 255,
{
    let plain = thresholded(coverage);
    let start = (y * width) as int;
    let above = rows_mended(plain, coverage, width, y);
    let here = rows_mended(plain, coverage, width, y + 1);
    let mask = mono_mask(coverage, width, height);
    assert(width * (y + 1) <= width * height) by (nonlinear_arith)
        requires
            y + 1 <= height,
    ;
    assert(width * (y + 1) == y * width + width) by (nonlinear_arith);
    assert(width * y == y * width) by (nonlinear_arith);
    mending_keeps_every_pixel(plain, coverage, width, y);
    mending_keeps_every_pixel(plain, coverage, width, y + 1);
    let row = coverage.subrange(start, start + width);
    lemma_peak_position(row);
    let peak = start + peak_position(row);
    assert(row[x as int] == coverage[start + x]);
    assert(coverage[peak] == row[peak_position(row)]);
    assert(((y + 1) - 1) * width == start);
    assert(here == row_mended(above, coverage, start, width as int));
    let i = if row_is_blank(above, start, width as int) {
        peak
    } else {
        choose|i: int| start <= i < start + width && (#[trigger] above[i]) != 0
    };
    assert(above[i] == plain[i] || above[i] == 255);
    assert(here[i] == 255);
    lemma_later_rows(plain, coverage, width, y + 1, height, i);
    assert(mask[i] == 255);
}

/// What a part of a coverage weighs and keeps adds to what the rest does; one
/// pixel weighs its coverage, and is kept from the threshold on.
pub proof fn coverage_adds_up(front: Seq<u8>, back: Seq<u8>, pixel: u8)
    ensures
        coverage_mass(front + back) == coverage_mass(front) + coverage_mass(back),
        kept_pixels(front + back) == kept_pixels(front) + kept_pixels(back),
        coverage_mass(seq![pixel]) == pixel,
        kept_pixels(seq![pixel]) == (if pixel >= MONO_COVERAGE_THRESHOLD {
            1nat
        } else {
            0nat
        }),
    decreases back.len(),
{
    reveal_with_fuel(coverage_mass, 2);
    reveal_with_fuel(kept_pixels, 2);
    assert(seq![pixel].drop_last() =~= Seq::<u8>::empty());
    if back.len() > 0 {
        coverage_adds_up(front, back.drop_last(), pixel);
        assert((front + back).drop_last() =~= front + back.drop_last());
        assert((front + back).last() == back.last());
    } else {
        assert(front + back =~= front);
    }
}

/// A glyph that keeps at least half of its ink shows just the pixels from the
/// threshold on.
pub proof fn kept_glyph_is_its_threshold(coverage: Seq<u8>, width: nat, height: nat, i: int)
    requires
        coverage.len() == width * height,
        coverage_mass(coverage) <= 510 * kept_pixels(coverage),
        0 <= i < coverage.len(),
    ensures
        mono_mask(coverage, width, height)[i] == 255 <==> coverage[i] >= MONO_COVERAGE_THRESHOLD,
        mono_mask(coverage, width, height)[i] == 0 <==> coverage[i] < MONO_COVERAGE_THRESHOLD,
{
    assert(coverage.take((width * height) as int) =~= coverage);
}

/// Where mending lights a pixel, its row had none, the pixel reaches the
/// floor, none of the row is darker, and those to its right are lighter.
pub proof fn mended_pixel_is_the_peak_of_its_row(
    coverage: Seq<u8>,
    width: nat,
    height: nat,
    y: nat,
    x: nat,
    other: nat,
)
    requires
        width > 0,
        y < height,
        x < width,
        other < width,
        coverage.len() == width * height,
        mono_mask(coverage, width, height)[(y * width + x) as int] == 255,
        coverage[(y * width + x) as int] < MONO_COVERAGE_THRESHOLD,
    ensures
        coverage[(y * width + x) as int] >= MONO_DROPOUT_FLOOR,
        coverage[(y * width + other) as int] <= coverage[(y * width + x) as int],
        x < other ==> coverage[(y * width + other) as int] < coverage[(y * width + x) as int],
        510 * kept_pixels(coverage) < coverage_mass(coverage),
{
    let plain = thresholded(coverage);
    let start = (y * width) as int;
    let i = start + x;
    let above = rows_mended(plain, coverage, width, y);
    let here = rows_mended(plain, coverage, width, y + 1);
    assert(width * (y + 1) <= width * height) by (nonlinear_arith)
        requires
            y + 1 <= height,
    ;
    assert(width * (y + 1) == y * width + width) by (nonlinear_arith);
    assert(width * y == y * width) by (nonlinear_arith);
    assert(coverage.take((width * height) as int) =~= coverage);
    assert(glyph_is_lost(coverage, width, height));
    mending_keeps_every_pixel(plain, coverage, width, y);
    lemma_later_rows(plain, coverage, width, y + 1, height, i);
    lemma_rows_ahead(plain, coverage, width, y);
    assert(((y + 1) - 1) * width == start);
    assert(here == row_mended(above, coverage, start, width as int));
    assert(above[i] == plain[i]);
    let row = coverage.subrange(start, start + width);
    lemma_peak_position(row);
    assert(row[x as int] == coverage[i]);
    assert(row[other as int] == coverage[start + other]);
    assert(i == start + peak_position(row));
    if coverage[start + other] >= MONO_COVERAGE_THRESHOLD {
        assert(above[start + other] == plain[start + other]);
    }
}

/// Mending the rows above leaves the rows ahead as they are.
proof fn lemma_rows_ahead(mask: Seq<u8>, coverage: Seq<u8>, width: nat, rows: nat)
    requires
        width > 0,
        mask.len() == coverage.len(),
        width * rows <= coverage.len(),
    ensures
        rows_mended(mask, coverage, width, rows).len() == mask.len(),
        forall|i: int|
            width * rows <= i < mask.len() ==> (#[trigger] rows_mended(mask, coverage, width, rows)[i])
                == mask[i],
    decreases rows,
{
    if rows > 0 {
        let fewer = (rows - 1) as nat;
        assert(width * rows == width * fewer + width) by (nonlinear_arith)
            requires
                rows == fewer + 1,
        ;
        assert(fewer * width == width * fewer) by (nonlinear_arith);
        lemma_rows_ahead(mask, coverage, width, fewer);
        let row = coverage.subrange((fewer * width) as int, (fewer * width + width) as int);
        lemma_peak_position(row);
        assert((rows - 1) * width == fewer * width);
    }
}

fn row_has_ink(mask: &Vec<u8>, start: usize, end: usize) -> (ink: bool)
    requires
        start <= end <= mask@.len(),
    ensures
        ink == !row_is_blank(mask@, start as int, end - start),
{
    let mut i: usize = start;
    while i < end
        invariant
            start <= i <= end <= mask@.len(),
            forall|j: int| start <= j < i ==> (#[trigger] mask@[j]) == 0,
        decreases end - i,
    {
        if mask[i] != 0 {
            assert(mask@[i as int] != 0);
            return true;
        }
        i += 1;
    }
    false
}

fn find_peak(coverage: &[u8], start: usize, end: usize) -> (peak: usize)
    requires
        start < end <= coverage@.len(),
    ensures
        peak == start + peak_position(coverage@.subrange(start as int, end as int)),
        start <= peak < end,
{
    let mut peak: usize = start;
    let mut i: usize = start + 1;
    assert(coverage@.subrange(start as int, start + 1).len() == 1);
    while i < end
        invariant
            start < i <= end <= coverage@.len(),
            start <= peak < i,
            peak == start + peak_position(coverage@.subrange(start as int, i as int)),
        decreases end - i,
    {
        assert(coverage@.subrange(start as int, i + 1).drop_last() =~= coverage@.subrange(
            start as int,
            i as int,
        ));
        if coverage[i] >= coverage[peak] {
            peak = i;
        }
        i += 1;
    }
    peak
}

fn threshold_mask(coverage: &[u8]) -> (mask: Vec<u8>)
    ensures
        mask@ == thresholded(coverage@),
{
    let mut mask: Vec<u8> = Vec::new();
    let count: usize = coverage.len();
    let mut i: usize = 0;
    while i < count
        invariant
            i <= count,
            count == coverage@.len(),
            mask@.len() == i,
            forall|j: int|
                0 <= j < i ==> (#[trigger] mask@[j]) == (if coverage@[j]
                    >= MONO_COVERAGE_THRESHOLD {
                    255u8
                } else {
                    0u8
                }),
        decreases count - i,
    {
        mask.push(
            if coverage[i] >= MONO_COVERAGE_THRESHOLD {
                255
            } else {
                0
            },
        );
        i += 1;
    }
    assert(mask@ =~= thresholded(coverage@));
    mask
}

/// Threshold a coverage mask. A glyph that the threshold destroys gets the
/// strongest pixel of each row that a stroke crosses.
pub fn mono_mask_with_dropout(coverage: &[u8], width: usize, height: usize) -> (mask: Vec<u8>)
    requires
        width * height <= usize::MAX,
        width > 0 && height > 0 && width * height <= coverage@.len() ==> {
            &&& kept_pixels(coverage@) * 255 * 2 <= u32::MAX
            &&& coverage_mass(coverage@.take(width * height)) <= u32::MAX
        },
    ensures
        mask@ == mono_mask(coverage@, width as nat, height as nat),
{
    let mut mask: Vec<u8> = threshold_mask(coverage);
    if width == 0 || height == 0 {
        return mask;
    }
    let area: usize = width * height;
    if coverage.len() < area {
        return mask;
    }
    let mut mass: u32 = 0;
    let mut kept: u32 = 0;
    let count: usize = coverage.len();
    let mut i: usize = 0;
    while i < count
        invariant
            i <= count,
            count == coverage@.len(),
            area == width * height,
            area <= count,
            kept_pixels(coverage@) * 255 * 2 <= u32::MAX,
            coverage_mass(coverage@.take(area as int)) <= u32::MAX,
            kept == kept_pixels(coverage@.take(i as int)),
            mass == coverage_mass(
                coverage@.take(
                    if i < area {
                        i as int
                    } else {
                        area as int
                    },
                ),
            ),
        decreases count - i,
    {
        proof {
            assert(coverage@.take(i + 1).drop_last() =~= coverage@.take(i as int));
            lemma_mass_grows(coverage@, i + 1);
            if i < area {
                let front = coverage@.take(area as int);
                lemma_mass_grows(front, i + 1);
                assert(front.take(i + 1) =~= coverage@.take(i + 1));
            }
        }
        if coverage[i] >= MONO_COVERAGE_THRESHOLD {
            kept = kept + 1;
        }
        if i < area {
            mass = mass + coverage[i] as u32;
        }
        i += 1;
    }
    assert(coverage@.take(count as int) =~= coverage@);
    if kept * 255 * 2 >= mass {
        return mask;
    }
    let ghost plain = mask@;
    let mut y: usize = 0;
    let mut start: usize = 0;
    while y < height
        invariant
            y <= height,
            width > 0,
            area == width * height,
            area <= coverage@.len(),
            start == y * width,
            start <= area,
            plain.len() == coverage@.len(),
            mask@.len() == coverage@.len(),
            mask@ == rows_mended(plain, coverage@, width as nat, y as nat),
        decreases height - y,
    {
        assert((y + 1) * width == start + width && (y + 1) * width <= area) by (nonlinear_arith)
            requires
                start == y * width,
                area == width * height,
                y < height,
        ;
        let end: usize = start + width;
        if !row_has_ink(&mask, start, end) {
            proof {
                lemma_peak_position(coverage@.subrange(start as int, end as int));
            }
            let peak: usize = find_peak(coverage, start, end);
            if coverage[peak] >= MONO_DROPOUT_FLOOR {
                mask.set(peak, 255);
            }
        }
        y += 1;
        start = end;
    }
    mask
}

} // verus!
