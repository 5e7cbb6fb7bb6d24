//! Bundled and guest faces, the masks they are made of and how they are found.

use systemless::font_charmap::{
    chosen_outline_glyph, chosen_strike_glyph, chosen_symbol_glyph, outline_glyph, strike_glyph,
    symbol_glyph,
};
use systemless::font_faces::{get_italic_glyph, FontCatalogue};
use systemless::font_layout::{
    bundled_advances, bundled_layout, bundled_outline, bundled_wid_max, pixel_strike,
    BundledOutline, ClassicLayoutData, Layout, PixelStrike, FIRST_ASCII_CODE, GENEVA9_ADVANCES,
    LAST_ASCII_CODE,
};
use systemless::font_mask::mono_mask_with_dropout;
use systemless::font_names::{
    font_id_for_name, font_name_for_id, trim_text, FONT_APPLICATION, FONT_CAIRO, FONT_CHICAGO,
    FONT_COURIER, FONT_GENEVA, FONT_HELVETICA, FONT_LONDON, FONT_MONACO, FONT_NEWYORK,
    FONT_PALATINO, FONT_TIMES, FONT_VENICE,
};
use systemless::font_raster::{
    assemble_faces, place_glyph, DrawnFrame, DrawnGlyph, DrawnOutline, FontFace, FontMetrics,
    Glyph, MacRomanFace, MacRomanGlyph,
};
use systemless::font_tables::font_counts_fit;

const EXPECTED_GENEVA9_ADVANCES: [u8; 95] = [
    3, 3, 5, 7, 6, 9, 8, 3, 4, 4, 7, 6, 4, 5, 3, 6, 6, 6, 6, 6, 6, 6, 6, 6, 6, 6, 4, 4, 5, 6, 5, 6,
    8, 7, 6, 6, 6, 5, 5, 6, 6, 3, 6, 6, 5, 8, 6, 6, 6, 6, 6, 6, 6, 6, 6, 8, 6, 6, 5, 4, 6, 4, 4, 6,
    3, 5, 5, 5, 5, 5, 4, 5, 5, 3, 4, 5, 3, 8, 5, 5, 5, 5, 5, 5, 4, 5, 6, 8, 6, 6, 5, 4, 2, 4, 6,
];

const NO_LAYOUT: Layout = Layout {
    advances: None,
    bearings: None,
    wid_max: None,
    frame: None,
};

fn chicago_data() -> ClassicLayoutData {
    ClassicLayoutData {
        chicago12_advances: [11; 95],
        chicago12_bearings: [0xFF; 95],
    }
}

/// A character with a box of ink, two pixels wide and three high.
fn drawn_box(advance: u8, from_strike: bool) -> DrawnGlyph {
    DrawnGlyph {
        advance,
        from_strike,
        outline: Some(DrawnOutline {
            width: 2,
            height: 3,
            left: 1,
            top: 3,
            coverage: vec![255; 6],
        }),
    }
}

/// Every character of a face, the space without ink.
fn drawn_face(advance: u8) -> Vec<DrawnGlyph> {
    (0..223)
        .map(|i| {
            if i == 0 {
                DrawnGlyph {
                    advance,
                    from_strike: false,
                    outline: None,
                }
            } else {
                drawn_box(advance, false)
            }
        })
        .collect()
}

fn frame() -> DrawnFrame {
    DrawnFrame {
        ascent: 9,
        descent: 2,
        leading: 1,
        max_width: Some(40),
        from_strike: false,
    }
}

fn raw_faces(font_id: i16, size: i16, advance: u8) -> (FontFace, MacRomanFace) {
    assemble_faces(font_id, size, &drawn_face(advance), &frame(), &NO_LAYOUT).unwrap()
}

fn bundled_faces(font_id: i16, size: i16, advance: u8) -> (FontFace, MacRomanFace) {
    let layout = bundled_layout(&chicago_data(), font_id, size);
    assemble_faces(font_id, size, &drawn_face(advance), &frame(), &layout).unwrap()
}

fn advances(face: &FontFace) -> Vec<u8> {
    face.glyphs.iter().map(|glyph| glyph.advance).collect()
}

fn small_face(font_id: i16, size: i16, ascent: i16, advance: u8) -> FontFace {
    FontFace {
        font_id,
        size,
        metrics: FontMetrics {
            ascent,
            descent: 0,
            wid_max: i16::from(advance),
            leading: 0,
        },
        glyphs: vec![Glyph {
            width: 0,
            height: 0,
            advance,
            origin_x: 0,
            origin_y: 0,
            data_offset: 0,
        }],
        data: Vec::new(),
    }
}

/// A catalogue without an override directory.
fn new_catalogue() -> FontCatalogue {
    let mut catalogue = FontCatalogue::new();
    catalogue.resolve_overrides(None, |_| Vec::new());
    catalogue
}

#[test]
fn geneva9_compatibility_component_has_exact_ofl_advance_bytes() {
    assert_eq!(GENEVA9_ADVANCES, EXPECTED_GENEVA9_ADVANCES);
    assert_eq!(GENEVA9_ADVANCES.len(), usize::from(0x7eu8 - 0x20 + 1));
    assert_eq!((FIRST_ASCII_CODE, LAST_ASCII_CODE), (0x20, 0x7e));
}

#[test]
fn bundled_geneva9_uses_compatibility_advances() {
    let (face, _) = bundled_faces(FONT_GENEVA, 9, 7);
    assert_eq!(advances(&face), GENEVA9_ADVANCES.as_slice());
}

#[test]
fn bundled_application9_uses_geneva9_compatibility_advances() {
    let (face, _) = bundled_faces(FONT_APPLICATION, 9, 7);
    assert_eq!(advances(&face), GENEVA9_ADVANCES.as_slice());
}

#[test]
fn geneva9_phrases_span_the_recorded_widths() {
    const FIRST: &[u8] = b"This is your shooter.  There are many like it, ";
    const SECOND: &[u8] = b"but this one is yours.  Mind it well, cuz it is ";
    let (face, _) = bundled_faces(FONT_GENEVA, 9, 7);
    let width = |text: &[u8]| -> i16 {
        text.iter()
            .map(|byte| i16::from(face.glyphs[usize::from(*byte - b' ')].advance))
            .sum()
    };
    assert_eq!((FIRST.len(), SECOND.len()), (47, 48));
    assert_eq!(width(FIRST), 207);
    assert_eq!(width(SECOND), 200);
}

fn assert_same_glyph_except_advance(left: &Glyph, right: &Glyph) {
    assert_eq!(left.width, right.width);
    assert_eq!(left.height, right.height);
    assert_eq!(left.origin_x, right.origin_x);
    assert_eq!(left.origin_y, right.origin_y);
    assert_eq!(left.data_offset, right.data_offset);
}

#[test]
fn monaco_compatibility_changes_only_the_selected_maximum_advance() {
    for size in [14, 23] {
        let (raw, raw_extended) = raw_faces(FONT_MONACO, size, 8);
        let (bundled, bundled_extended) = bundled_faces(FONT_MONACO, size, 8);

        assert_eq!(raw.data, bundled.data);
        assert_eq!(raw.glyphs.len(), bundled.glyphs.len());
        for (raw_glyph, bundled_glyph) in raw.glyphs.iter().zip(&bundled.glyphs) {
            assert_same_glyph_except_advance(raw_glyph, bundled_glyph);
            assert_eq!(raw_glyph.advance, bundled_glyph.advance);
        }
        assert_eq!(raw_extended.data, bundled_extended.data);
        assert_eq!(raw_extended.glyphs.len(), bundled_extended.glyphs.len());
        for (raw_glyph, bundled_glyph) in raw_extended.glyphs.iter().zip(&bundled_extended.glyphs)
        {
            assert_eq!(raw_glyph.mac_code, bundled_glyph.mac_code);
            assert_same_glyph_except_advance(&raw_glyph.glyph, &bundled_glyph.glyph);
            assert_eq!(raw_glyph.glyph.advance, bundled_glyph.glyph.advance);
        }
        assert_eq!(
            bundled.metrics.wid_max,
            bundled_wid_max(FONT_MONACO, size).expect("classic scalable Monaco maximum advance")
        );
        assert_ne!(raw.metrics.wid_max, bundled.metrics.wid_max);
    }
    assert_eq!(bundled_wid_max(FONT_MONACO, 14), Some(11));
    assert_eq!(bundled_wid_max(FONT_MONACO, 23), Some(17));
    assert_eq!(bundled_wid_max(FONT_MONACO, 0), None);
    assert_eq!(bundled_wid_max(FONT_CHICAGO, 12), Some(14));
    assert_eq!(bundled_wid_max(FONT_GENEVA, 12), None);
}

#[test]
fn compatibility_does_not_change_other_bundled_faces_or_guest_sfnt_rasterization() {
    for (font_id, size) in [
        (FONT_GENEVA, 8),
        (FONT_GENEVA, 10),
        (FONT_APPLICATION, 10),
        (FONT_HELVETICA, 9),
        (FONT_COURIER, 23),
    ] {
        let (raw, _) = raw_faces(font_id, size, 7);
        let (bundled, _) = bundled_faces(font_id, size, 7);
        assert_eq!(raw.data, bundled.data);
        assert_eq!(advances(&raw), advances(&bundled));
        assert_eq!(raw.metrics.wid_max, bundled.metrics.wid_max);
    }

    let (guest, _) = raw_faces(FONT_GENEVA, 9, 5);
    assert!(
        guest
            .glyphs
            .windows(2)
            .all(|pair| pair[0].advance == pair[1].advance),
        "a guest sfnt registered as Geneva 9 must retain its monospaced metrics"
    );
}

#[test]
fn outlines_supply_exact_sizes_and_extended_mac_roman() {
    let mut catalogue = new_catalogue();
    for family in [
        FONT_CHICAGO,
        FONT_GENEVA,
        FONT_MONACO,
        FONT_NEWYORK,
        FONT_PALATINO,
        FONT_VENICE,
        FONT_LONDON,
        FONT_CAIRO,
    ] {
        for size in [9, 12, 17, 24, 40, 96] {
            assert!(catalogue.needs_outline(family, size));
            let (face, extension) = bundled_faces(family, size, 6);
            assert_eq!(face.size, size);
            assert_eq!(face.glyphs.len(), 95);
            assert_eq!(extension.glyphs.len(), 128);
            assert!(face.data.iter().all(|&value| value == 0 || value == 255));
            for (glyph, data) in face.glyphs.iter().map(|g| (g, &face.data)).chain(
                extension
                    .glyphs
                    .iter()
                    .map(|entry| (&entry.glyph, &extension.data)),
            ) {
                assert!(
                    glyph.data_offset + usize::from(glyph.width) * usize::from(glyph.height)
                        <= data.len()
                );
            }
            catalogue.install_outline_faces(face, extension);
            assert!(!catalogue.needs_outline(family, size));
            assert!(std::ptr::eq(
                catalogue.get_font_face(family, size).unwrap(),
                catalogue.get_font_face(family, size).unwrap()
            ));
        }
    }
    let (face, numerator, denominator) = catalogue.get_font_face_scale_ratio(FONT_GENEVA, 17);
    assert_eq!((face.size, numerator, denominator), (17, 17, 17));
    let (accent, data) = catalogue.get_macroman_glyph(FONT_GENEVA, 17, 0x8e).unwrap();
    assert!(data[accent.data_offset
        ..accent.data_offset + usize::from(accent.width) * usize::from(accent.height)]
        .iter()
        .any(|&v| v > 0));
}

#[test]
fn bundled_families_rasterize_requested_sizes() {
    let mut catalogue = new_catalogue();
    for id in [
        FONT_CHICAGO,
        FONT_GENEVA,
        FONT_MONACO,
        FONT_PALATINO,
        FONT_HELVETICA,
        FONT_COURIER,
    ] {
        for size in [9, 12, 17, 40, 96] {
            let (face, extension) = bundled_faces(id, size, 6);
            catalogue.install_outline_faces(face, extension);
            let (face, numerator, denominator) = catalogue.get_font_face_scale_ratio(id, size);
            assert_eq!((face.font_id, face.size), (id, size));
            assert_eq!(numerator, denominator);
            assert_eq!(face.glyphs.len(), 95);
        }
    }
}

#[test]
fn geneva9_apeiron_phrase_spans_match_recorded_origins() {
    const FIRST: &[u8] = b"This is your shooter.  There are many like it, ";
    const SECOND: &[u8] = b"but this one is yours.  Mind it well, cuz it is ";
    let (face, _) = bundled_faces(FONT_GENEVA, 9, 77);
    let width = |text: &[u8]| -> i16 {
        text.iter()
            .map(|byte| i16::from(face.glyphs[usize::from(*byte - b' ')].advance))
            .sum()
    };
    assert_eq!((FIRST.len(), SECOND.len()), (47, 48));
    assert_eq!(width(FIRST), 207);
    assert_eq!(width(SECOND), 200);
}

#[test]
fn space_has_advance_and_no_ink() {
    // The drawn space has a blank box; Geneva 9's layout sets its advance.
    let mut drawn = drawn_face(77);
    drawn[0].outline = Some(DrawnOutline {
        width: 3,
        height: 3,
        left: 0,
        top: 3,
        coverage: vec![0; 9],
    });
    let mut catalogue = new_catalogue();
    for (size, advance) in [(9, 3), (12, 77)] {
        let layout = bundled_layout(&chicago_data(), FONT_GENEVA, size);
        let (face, extension) =
            assemble_faces(FONT_GENEVA, size, &drawn, &frame(), &layout).unwrap();
        catalogue.install_outline_faces(face, extension);
        let face = catalogue.get_font_face(FONT_GENEVA, size).unwrap();
        let space = &face.glyphs[0];
        assert!(space.advance > 0, "space must advance");
        assert_eq!(space.advance, advance);
        let len = (space.width as usize) * (space.height as usize);
        assert_eq!(len, 9);
        let data_slice = &face.data[space.data_offset..space.data_offset + len];
        assert!(
            data_slice.iter().all(|&b| b == 0),
            "space must render no ink"
        );
    }
}

#[test]
fn monospaced_advances_and_em_scale_are_preserved() {
    // Courier has no layout of its own, so every character keeps the advance
    // it was drawn with; Geneva 9 replaces the same advances.
    let drawn: Vec<DrawnGlyph> = (0..223)
        .map(|i| drawn_box(if i < 95 { 12 } else { 13 }, false))
        .collect();
    let courier = bundled_layout(&chicago_data(), FONT_COURIER, 20);
    let (face, extension) =
        assemble_faces(FONT_COURIER, 20, &drawn, &frame(), &courier).unwrap();
    assert!(face.glyphs.iter().all(|glyph| glyph.advance == 12));
    assert!(extension.glyphs.iter().all(|glyph| glyph.glyph.advance == 13));
    let (geneva, _) = bundled_faces(FONT_GENEVA, 9, 12);
    assert_eq!(advances(&geneva), EXPECTED_GENEVA9_ADVANCES.to_vec());
    let mut scaled = new_catalogue();
    scaled.install_outline_faces(face, extension);
    let (face, numerator, denominator) = scaled.get_font_face_scale_ratio(FONT_COURIER, 20);
    assert_eq!((face.size, numerator, denominator), (20, 20, 20));
    let catalogue = new_catalogue();
    assert!(!catalogue.needs_outline(FONT_GENEVA, 97));
    assert!(!catalogue.needs_outline(FONT_GENEVA, 0));
    assert!(!catalogue.needs_outline(30000, 12));
    assert!(catalogue.get_font_face(FONT_GENEVA, 97).is_none());
    assert!(catalogue.get_font_face(30000, 12).is_none());
}

#[test]
fn resource_strike_can_register_under_fond_family_and_size() {
    let family_id = 30001;
    let mut catalogue = new_catalogue();
    catalogue.register_resource_face(small_face(family_id, 17, 1, 1), None);
    let face = catalogue
        .get_font_face(family_id, 17)
        .expect("FOND-associated face should resolve");
    assert_eq!(face.font_id, family_id);
    assert_eq!(face.size, 17);
    assert_eq!(face.metrics.ascent, 1);
}

#[test]
fn guest_outline_wins_for_an_extended_character_drawn_first() {
    let mut catalogue = new_catalogue();
    let (guest, extension) = raw_faces(30002, 23, 14);
    catalogue.install_guest_outline_face(guest, extension);
    let (accent, _) = catalogue.get_macroman_glyph(30002, 23, 0x8e).unwrap();
    let face = catalogue.get_font_face(30002, 23).unwrap();
    assert_eq!(accent.advance, face.glyphs[0].advance);
    assert!(face
        .glyphs
        .iter()
        .all(|glyph| glyph.advance == accent.advance));
}

#[test]
fn guest_extension_wins_over_the_bundled_one() {
    let mut catalogue = new_catalogue();
    let (face, extension) = raw_faces(FONT_COURIER, 18, 11);
    catalogue.install_outline_faces(face, extension);
    let advance = |catalogue: &FontCatalogue| {
        let (glyph, _) = catalogue
            .get_macroman_glyph(FONT_COURIER, 18, 0x8e)
            .unwrap();
        glyph.advance
    };
    assert_eq!(advance(&catalogue), 11);
    assert!(catalogue
        .get_macroman_glyph(FONT_COURIER, 18, 0x7f)
        .is_none());
    assert!(catalogue
        .get_macroman_glyph(FONT_COURIER, 18, 0x80)
        .is_some());
    assert!(catalogue
        .get_macroman_glyph(FONT_COURIER, 18, 0xff)
        .is_some());
    let (guest, extension) = raw_faces(FONT_COURIER, 18, 14);
    catalogue.install_guest_outline_face(guest, extension);
    assert_eq!(advance(&catalogue), 14);
}

#[test]
fn guest_bitmap_strike_wins_even_after_urw_is_cached() {
    let mut catalogue = new_catalogue();
    let (face, extension) = bundled_faces(FONT_COURIER, 19, 11);
    catalogue.install_outline_faces(face, extension);
    assert_eq!(
        catalogue
            .get_font_face(FONT_COURIER, 19)
            .unwrap()
            .metrics
            .ascent,
        9
    );
    catalogue.register_resource_face(small_face(FONT_COURIER, 19, 1, 1), None);
    let face = catalogue.get_font_face(FONT_COURIER, 19).unwrap();
    assert_eq!(face.metrics.ascent, 1);
    assert_eq!(face.glyphs[0].advance, 1);
}

fn distinctive_override(font_id: i16, size: i16) -> FontFace {
    FontFace {
        font_id,
        size,
        metrics: FontMetrics {
            ascent: 99,
            descent: 11,
            wid_max: 13,
            leading: 7,
        },
        glyphs: (0..95)
            .map(|_| Glyph {
                width: 0,
                height: 0,
                advance: 13,
                origin_x: 0,
                origin_y: 0,
                data_offset: 0,
            })
            .collect(),
        data: vec![],
    }
}

#[test]
fn override_directory_entries_win_over_bundled_faces() {
    let mut catalogue = FontCatalogue::new();
    assert!(catalogue.needs_override_directory());
    catalogue.resolve_overrides(Some("overrides".to_string()), |path| {
        assert_eq!(path, "overrides");
        vec![distinctive_override(FONT_CHICAGO, 12)]
    });
    assert!(!catalogue.needs_override_directory());
    for id in [FONT_CHICAGO, FONT_GENEVA] {
        let (face, extension) = bundled_faces(id, 12, 6);
        catalogue.install_outline_faces(face, extension);
    }
    let face = catalogue
        .get_font_face(FONT_CHICAGO, 12)
        .expect("chicago 12 should resolve");
    assert_eq!(face.metrics.ascent, 99, "override should win over bundled");
    assert_eq!(face.metrics.descent, 11);
    assert_eq!(face.glyphs.len(), 95);
    assert!(
        face.glyphs.iter().all(|g| g.advance == 13),
        "all override glyphs carry the fingerprint advance"
    );

    let geneva = catalogue
        .get_font_face(FONT_GENEVA, 12)
        .expect("bundled geneva 12 still there");
    assert_ne!(
        geneva.metrics.ascent, 99,
        "non-overridden face must keep built-in systemless metrics"
    );
}

#[test]
fn explicit_geneva9_override_keeps_its_own_metrics() {
    let mut catalogue = FontCatalogue::new();
    catalogue.resolve_overrides(Some("overrides".to_string()), |_| {
        vec![distinctive_override(FONT_GENEVA, 9)]
    });
    let resolved = catalogue
        .get_font_face(FONT_GENEVA, 9)
        .expect("explicit Geneva 9 override");
    assert!(resolved.glyphs.iter().all(|glyph| glyph.advance == 13));
    assert_eq!(resolved.metrics.wid_max, 13);
    assert_eq!(*resolved, distinctive_override(FONT_GENEVA, 9));
}

#[test]
fn override_directory_is_read_again_only_when_it_changes() {
    let mut catalogue = FontCatalogue::new();
    catalogue.resolve_overrides(Some("first".to_string()), |_| {
        vec![distinctive_override(FONT_GENEVA, 9)]
    });
    catalogue.refresh_font_overrides();
    assert!(catalogue.needs_override_directory());
    catalogue.resolve_overrides(Some("first".to_string()), |_| {
        unreachable!("the same directory is not loaded twice")
    });
    assert!(catalogue.get_font_face(FONT_GENEVA, 9).is_some());
    catalogue.refresh_font_overrides();
    catalogue.resolve_overrides(None, |_| Vec::new());
    assert!(catalogue.get_font_face(FONT_GENEVA, 9).is_none());
}

#[test]
fn dropout_leaves_a_glyph_the_threshold_kept() {
    let comma = [200, 90, 10];
    assert_eq!(mono_mask_with_dropout(&comma, 1, 3), vec![255, 0, 0]);

    let slash = [
        0, 0, 24, 102, //
        0, 0, 100, 27, //
        0, 0, 128, 0, //
        0, 10, 116, 0, //
        0, 81, 47, 0, //
        0, 127, 0, 0, //
        2, 125, 0, 0, //
    ];
    let expected = vec![
        0, 0, 0, 255, //
        0, 0, 255, 0, //
        0, 0, 255, 0, //
        0, 0, 255, 0, //
        0, 255, 0, 0, //
        0, 255, 0, 0, //
        0, 255, 0, 0, //
    ];
    assert_eq!(mono_mask_with_dropout(&slash, 4, 7), expected);
}

#[test]
fn dropout_lights_the_last_of_equal_peaks_and_no_fringe() {
    assert_eq!(
        mono_mask_with_dropout(&[100, 100, 63, 0], 2, 2),
        vec![0, 255, 0, 0]
    );
    assert_eq!(mono_mask_with_dropout(&[], 0, 0), Vec::<u8>::new());
    assert_eq!(mono_mask_with_dropout(&[128, 127], 0, 5), vec![255, 0]);
}

#[test]
fn glyphs_take_their_place_and_refuse_what_does_not_fit() {
    let mut data = vec![1, 2, 3];
    let glyph = place_glyph(&drawn_box(6, false), &mut data).unwrap();
    assert_eq!(
        glyph,
        Glyph {
            width: 2,
            height: 3,
            advance: 6,
            origin_x: 1,
            origin_y: -3,
            data_offset: 3,
        }
    );
    assert_eq!(data, [1, 2, 3, 255, 255, 255, 255, 255, 255]);

    let mut wide = drawn_box(6, false);
    wide.outline = Some(DrawnOutline {
        width: 256,
        height: 1,
        left: 0,
        top: 0,
        coverage: vec![0; 256],
    });
    assert_eq!(place_glyph(&wide, &mut data), None);
    let mut drawn = drawn_face(6);
    drawn[10] = wide;
    assert_eq!(
        assemble_faces(FONT_GENEVA, 12, &drawn, &frame(), &NO_LAYOUT),
        None
    );
}

#[test]
fn metrics_follow_the_glyphs_the_outline_and_the_layout() {
    let (face, _) = raw_faces(FONT_GENEVA, 12, 6);
    assert_eq!(
        face.metrics,
        FontMetrics {
            ascent: 9,
            descent: 2,
            wid_max: 40,
            leading: 1,
        }
    );
    let mut drawn = drawn_face(6);
    drawn[1].outline = Some(DrawnOutline {
        width: 1,
        height: 20,
        left: 0,
        top: 15,
        coverage: vec![255; 20],
    });
    let mut low = frame();
    low.max_width = None;
    let (face, _) = assemble_faces(FONT_GENEVA, 12, &drawn, &low, &NO_LAYOUT).unwrap();
    assert_eq!(
        face.metrics,
        FontMetrics {
            ascent: 15,
            descent: 5,
            wid_max: 6,
            leading: 1,
        }
    );
}

#[test]
fn chicago12_takes_its_whole_layout() {
    let mut drawn = drawn_face(6);
    drawn[1].from_strike = true;
    let layout = bundled_layout(&chicago_data(), FONT_CHICAGO, 12);
    let (face, extension) =
        assemble_faces(FONT_CHICAGO, 12, &drawn, &frame(), &layout).unwrap();
    assert_eq!(
        face.metrics,
        FontMetrics {
            ascent: 12,
            descent: 3,
            wid_max: 14,
            leading: 1,
        }
    );
    assert!(advances(&face).iter().all(|&advance| advance == 11));
    assert_eq!(face.glyphs[1].origin_x, -1);
    assert_eq!(face.glyphs[2].origin_x, 1);
    assert_eq!(extension.glyphs[0].mac_code, 0x80);
    assert_eq!(extension.glyphs[127].mac_code, 0xff);
    assert_eq!(extension.glyphs[0].glyph.advance, 6);
}

#[test]
fn families_have_their_outlines_and_strikes() {
    assert_eq!(
        bundled_outline(FONT_CHICAGO),
        Some(BundledOutline::NimbusSansBold)
    );
    for id in [FONT_APPLICATION, FONT_GENEVA, FONT_HELVETICA] {
        assert_eq!(bundled_outline(id), Some(BundledOutline::NimbusSansRegular));
    }
    for id in [FONT_MONACO, FONT_COURIER] {
        assert_eq!(bundled_outline(id), Some(BundledOutline::NimbusMonoRegular));
    }
    for id in [FONT_NEWYORK, FONT_TIMES] {
        assert_eq!(
            bundled_outline(id),
            Some(BundledOutline::NimbusRomanRegular)
        );
    }
    assert_eq!(
        bundled_outline(FONT_PALATINO),
        Some(BundledOutline::P052Roman)
    );
    assert_eq!(
        bundled_outline(FONT_VENICE),
        Some(BundledOutline::Z003MediumItalic)
    );
    assert_eq!(bundled_outline(FONT_LONDON), Some(BundledOutline::C059Bold));
    assert_eq!(
        bundled_outline(FONT_CAIRO),
        Some(BundledOutline::UrwGothicDemi)
    );
    assert_eq!(bundled_outline(30000), None);
    assert_eq!(
        pixel_strike(FONT_GENEVA, 9),
        Some((PixelStrike::Geneva9, 16))
    );
    assert_eq!(
        pixel_strike(FONT_CHICAGO, 12),
        Some((PixelStrike::ChicagoKare, 16))
    );
    assert_eq!(pixel_strike(FONT_CHICAGO, 9), None);
    assert_eq!(bundled_advances(&chicago_data(), FONT_MONACO, 9), None);
}

#[test]
fn families_are_found_by_their_names() {
    assert_eq!(font_name_for_id(FONT_GENEVA), Some("Geneva"));
    assert_eq!(font_id_for_name("geneva"), Some(FONT_GENEVA));
    assert_eq!(font_id_for_name("  New York "), Some(FONT_NEWYORK));
    assert_eq!(font_id_for_name("Seattle"), None);
    assert_eq!(font_name_for_id(30000), None);
    assert_eq!(trim_text(" \tMonaco\n"), "Monaco");
}

#[test]
fn requests_fall_back_to_the_nearest_strike_and_then_to_outlines() {
    let mut catalogue = new_catalogue();
    assert!(!catalogue.can_resolve(30005, 12));
    let (face, extension) = bundled_faces(FONT_APPLICATION, 12, 6);
    catalogue.install_outline_faces(face, extension);
    assert!(catalogue.can_resolve(30005, 12));
    assert_eq!(
        catalogue.get_font_face_or_default(30005, 0).font_id,
        FONT_APPLICATION
    );
    catalogue.register_resource_face(small_face(30005, 10, 5, 1), None);
    catalogue.register_resource_face(small_face(30005, 14, 7, 1), None);
    assert_eq!(catalogue.get_font_face_or_default(30005, 12).size, 14);
    assert_eq!(catalogue.get_font_face_or_default(30005, 11).size, 10);
    let (face, numerator, denominator) = catalogue.get_font_face_scale_ratio(30005, 12);
    assert_eq!((face.size, numerator, denominator), (14, 12, 14));
    let (face, scale) = catalogue.get_font_face_scaled(30005, 28);
    assert_eq!((face.size, scale), (14, 2));
}

#[test]
fn strikes_of_the_guest_supply_their_own_extension() {
    let mut catalogue = new_catalogue();
    let glyph = Glyph {
        width: 1,
        height: 1,
        advance: 9,
        origin_x: 0,
        origin_y: 0,
        data_offset: 0,
    };
    let extension = MacRomanFace {
        font_id: 30006,
        size: 12,
        glyphs: vec![MacRomanGlyph {
            mac_code: 0x8e,
            glyph,
        }],
        data: vec![255],
    };
    catalogue.register_resource_face(small_face(30006, 12, 5, 1), Some(extension));
    let (found, data) = catalogue.get_macroman_glyph(30006, 12, 0x8e).unwrap();
    assert_eq!((*found, data), (glyph, [255].as_slice()));
    assert!(catalogue.get_macroman_glyph(30006, 12, 0x8f).is_none());
    assert!(get_italic_glyph(FONT_GENEVA, 12, 'a').is_none());
}

/// A font with nothing but the tables that a character map needs.
fn font_with_cmap(subtables: &[(u16, u16, Vec<u8>)]) -> Vec<u8> {
    let mut cmap = Vec::new();
    cmap.extend_from_slice(&0u16.to_be_bytes());
    cmap.extend_from_slice(&(subtables.len() as u16).to_be_bytes());
    let mut offset = 4 + 8 * subtables.len();
    for (platform, encoding, bytes) in subtables {
        cmap.extend_from_slice(&platform.to_be_bytes());
        cmap.extend_from_slice(&encoding.to_be_bytes());
        cmap.extend_from_slice(&(offset as u32).to_be_bytes());
        offset += bytes.len();
    }
    for (_, _, bytes) in subtables {
        cmap.extend_from_slice(bytes);
    }
    let mut head = vec![0u8; 54];
    head[0..4].copy_from_slice(&0x0001_0000u32.to_be_bytes());
    head[12..16].copy_from_slice(&0x5F0F_3CF5u32.to_be_bytes());
    head[18..20].copy_from_slice(&1000u16.to_be_bytes());
    let hhea = vec![0u8; 36];
    let mut maxp = vec![0u8; 6];
    maxp[0..4].copy_from_slice(&0x0000_5000u32.to_be_bytes());
    maxp[4..6].copy_from_slice(&200u16.to_be_bytes());

    let tables = [
        (b"cmap", cmap),
        (b"head", head),
        (b"hhea", hhea),
        (b"maxp", maxp),
    ];
    let mut font = Vec::new();
    font.extend_from_slice(&0x0001_0000u32.to_be_bytes());
    font.extend_from_slice(&4u16.to_be_bytes());
    font.extend_from_slice(&[0, 64, 0, 2, 0, 0]);
    let mut offset = 12 + 16 * tables.len();
    for (tag, bytes) in &tables {
        font.extend_from_slice(tag.as_slice());
        font.extend_from_slice(&[0; 4]);
        font.extend_from_slice(&(offset as u32).to_be_bytes());
        font.extend_from_slice(&(bytes.len() as u32).to_be_bytes());
        offset += bytes.len();
    }
    for (_, bytes) in &tables {
        font.extend_from_slice(bytes);
    }
    font
}

/// A Unicode subtable that maps a run of characters to a run of glyphs.
fn unicode_subtable(first: char, last: char, glyph: u32) -> Vec<u8> {
    let mut bytes = vec![0, 12, 0, 0];
    for value in [28, 0, 1, u32::from(first), u32::from(last), glyph] {
        bytes.extend_from_slice(&value.to_be_bytes());
    }
    bytes
}

/// A byte-encoded subtable that maps one code.
fn macintosh_subtable(code: u8, glyph: u8) -> Vec<u8> {
    let mut bytes = vec![0, 0, 1, 6, 0, 0];
    bytes.resize(6 + 256, 0);
    bytes[6 + usize::from(code)] = glyph;
    bytes
}

#[test]
fn outlines_map_characters_by_unicode_and_then_by_mac_roman() {
    let font = font_with_cmap(&[
        (1, 0, macintosh_subtable(0x8e, 77)),
        (3, 10, unicode_subtable('A', 'Z', 5)),
    ]);
    assert_eq!(outline_glyph(&font, 'A', Some(0x41)), Some(5));
    assert_eq!(outline_glyph(&font, 'C', Some(0x43)), Some(7));
    assert_eq!(outline_glyph(&font, '\u{e9}', Some(0x8e)), Some(77));
    assert_eq!(outline_glyph(&font, '\u{e9}', None), Some(0));
    assert_eq!(outline_glyph(&font, 'a', Some(0x61)), Some(0));
    assert_eq!(outline_glyph(b"not a font", 'A', Some(0x41)), None);
}

#[test]
fn fonts_with_counts_past_the_largest_offset_are_found() {
    let font = font_with_cmap(&[
        (1, 0, macintosh_subtable(0x8e, 77)),
        (3, 10, unicode_subtable('A', 'Z', 5)),
    ]);
    assert!(font_counts_fit(&font));
    assert!(font_counts_fit(b"not a font"));
    assert!(font_counts_fit(b""));

    let mut collection = b"ttcf".to_vec();
    collection.extend_from_slice(&0x0001_0000u32.to_be_bytes());
    collection.extend_from_slice(&u32::MAX.to_be_bytes());
    assert!(!font_counts_fit(&collection));
    collection[8..12].copy_from_slice(&1u32.to_be_bytes());
    assert!(font_counts_fit(&collection));
    assert_eq!(outline_glyph(&collection, 'A', Some(0x41)), None);

    // The directory of the first face, in a file of its own and in a
    // collection.
    collection.extend_from_slice(&16u32.to_be_bytes());
    collection.extend_from_slice(&0x0001_0000u32.to_be_bytes());
    collection.extend_from_slice(&[0; 8]);
    let mut plain = 0x0001_0000u32.to_be_bytes().to_vec();
    plain.extend_from_slice(&[0; 8]);
    for (count, fits) in [(0u16, true), (0xfffe, true), (0xffff, false)] {
        plain[4..6].copy_from_slice(&count.to_be_bytes());
        collection[20..22].copy_from_slice(&count.to_be_bytes());
        assert_eq!(font_counts_fit(&plain), fits, "{count} tables");
        assert_eq!(font_counts_fit(&collection), fits, "{count} tables");
    }
    plain.resize(12 + 16 * 0xffff, 0);
    plain[4..6].copy_from_slice(&0xfffeu16.to_be_bytes());
    assert!(font_counts_fit(&plain));
    assert_eq!(outline_glyph(&plain, 'A', Some(0x41)), None);
    plain[4..6].copy_from_slice(&0xffffu16.to_be_bytes());
    assert!(!font_counts_fit(&plain));

    for (format, count_at, limit) in [
        (10u8, 16usize, (u32::MAX - 20) / 2),
        (12, 12, (u32::MAX - 16) / 12),
        (13, 12, (u32::MAX - 16) / 12),
        (14, 6, (u32::MAX - 10) / 11),
    ] {
        let mut subtable = vec![0u8; 20];
        subtable[1] = format;
        for (count, fits) in [(limit, true), (limit + 1, false), (u32::MAX, false)] {
            subtable[count_at..count_at + 4].copy_from_slice(&count.to_be_bytes());
            let font = font_with_cmap(&[(0, 3, subtable.clone())]);
            assert_eq!(font_counts_fit(&font), fits, "format {format}");
            let custom = font_with_cmap(&[(5, 0, subtable.clone())]);
            assert!(font_counts_fit(&custom), "format {format}");
            let later = font_with_cmap(&[
                (1, 0, macintosh_subtable(0x8e, 77)),
                (3, 4, subtable.clone()),
            ]);
            assert!(font_counts_fit(&later), "format {format}");
            assert_eq!(outline_glyph(&later, '\u{e9}', Some(0x8e)), Some(77));
        }
    }
}

#[test]
fn fonts_without_a_readable_face_have_no_outline_glyphs() {
    let font = font_with_cmap(&[(1, 0, macintosh_subtable(0x8e, 77))]);
    assert_eq!(outline_glyph(&font, '\u{e9}', Some(0x8e)), Some(77));
    let glyph_without = |tag: &[u8; 4]| {
        let mut other = font.clone();
        let at = other.windows(4).position(|bytes| bytes == tag).unwrap();
        other[at..at + 4].copy_from_slice(b"zzzz");
        assert!(font_counts_fit(&other));
        outline_glyph(&other, '\u{e9}', Some(0x8e))
    };
    assert_eq!(glyph_without(b"head"), None);
    assert_eq!(glyph_without(b"hhea"), None);
    assert_eq!(glyph_without(b"maxp"), None);
    assert_eq!(glyph_without(b"cmap"), Some(0));
    let mut cut = font.clone();
    cut[12 + 12..12 + 16].copy_from_slice(&3u32.to_be_bytes());
    assert!(font_counts_fit(&cut));
    assert_eq!(outline_glyph(&cut, '\u{e9}', Some(0x8e)), Some(0));
}

#[test]
fn macintosh_maps_are_searched_in_their_order() {
    let font = font_with_cmap(&[
        (0, 3, unicode_subtable('A', 'Z', 5)),
        (1, 0, macintosh_subtable(0x8e, 77)),
        (1, 1, macintosh_subtable(0x8e, 78)),
    ]);
    assert_eq!(outline_glyph(&font, '\u{e9}', Some(0x8e)), Some(77));
    let plain = font_with_cmap(&[(3, 10, unicode_subtable('A', 'Z', 5))]);
    assert_eq!(outline_glyph(&plain, '\u{e9}', Some(0x8e)), Some(0));
}

#[test]
fn strikes_leave_out_characters_that_they_lack() {
    let font = font_with_cmap(&[(3, 10, unicode_subtable('A', 'Z', 0))]);
    assert_eq!(strike_glyph(&font, 'A'), None);
    assert_eq!(strike_glyph(&font, 'B'), Some(1));
    assert_eq!(strike_glyph(&font, 'a'), None);
    assert_eq!(strike_glyph(b"", 'B'), None);
    assert_eq!(chosen_strike_glyph(Some(9)), Some(9));
    assert_eq!(chosen_strike_glyph(Some(0)), None);
    assert_eq!(chosen_outline_glyph(None, Some(3)), 3);
    assert_eq!(chosen_outline_glyph(Some(4), Some(3)), 4);
    assert_eq!(chosen_outline_glyph(None, None), 0);
}

#[test]
fn symbols_come_from_the_second_font_where_the_first_lacks_them() {
    let text = font_with_cmap(&[(3, 10, unicode_subtable('A', 'Z', 5))]);
    let symbols = font_with_cmap(&[(3, 10, unicode_subtable('\u{2318}', '\u{2318}', 9))]);
    assert_eq!(symbol_glyph(&text, &symbols, 'B'), Some((6, false)));
    assert_eq!(symbol_glyph(&text, &symbols, '\u{2318}'), Some((9, true)));
    assert_eq!(symbol_glyph(&text, &symbols, '\u{2713}'), None);
    assert_eq!(symbol_glyph(b"", &symbols, '\u{2318}'), None);
    assert_eq!(symbol_glyph(&text, b"", '\u{2318}'), None);
    assert_eq!(
        chosen_symbol_glyph(Some(None), Some(Some(9))),
        Some((9, true))
    );
}
