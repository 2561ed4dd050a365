//! End-to-end tests: a small TrueType font is built in memory, loaded into
//! the registry, and rasterized over codepoint ranges.
//!
//! The font maps `A`..`Z` to glyphs 1..26 and U+E000, U+E001 to glyphs 1 and
//! 2; every other codepoint falls back to the empty `.notdef` glyph.  Glyph
//! `i` is a filled rectangle whose width grows with `i`, so the order of the
//! emitted bitmaps is observable from their dimensions.

use render_text_desktop::errors::FontError;
use render_text_desktop::fonts::ScaleHandle;
use render_text_desktop::raster::{rasterize_glyph, rasterize_glyphs};
use render_text_desktop::registry::FontsState;

fn be16(v: &mut Vec<u8>, x: u16) {
    v.push((x >> 8) as u8);
    v.push(x as u8);
}

fn be32(v: &mut Vec<u8>, x: u32) {
    v.push((x >> 24) as u8);
    v.push((x >> 16) as u8);
    v.push((x >> 8) as u8);
    v.push(x as u8);
}

fn bei16(v: &mut Vec<u8>, x: i16) {
    be16(v, x as u16);
}

/// One glyph: a filled rectangle from (100, 0) to (`x_max`, 700).
fn glyph_data(x_max: i16) -> Vec<u8> {
    let mut g = Vec::new();
    bei16(&mut g, 1); // one contour
    bei16(&mut g, 100); // xMin
    bei16(&mut g, 0); // yMin
    bei16(&mut g, x_max);
    bei16(&mut g, 700); // yMax
    be16(&mut g, 3); // last point index of the contour
    be16(&mut g, 0); // no instructions
    for _ in 0..4 {
        g.push(0x01); // on-curve, 16-bit deltas
    }
    // x deltas: (100, x_max, x_max, 100)
    bei16(&mut g, 100);
    bei16(&mut g, x_max - 100);
    bei16(&mut g, 0);
    bei16(&mut g, -(x_max - 100));
    // y deltas: (0, 0, 700, 0), reaching corners at heights 0, 0, 700, 700
    bei16(&mut g, 0);
    bei16(&mut g, 0);
    bei16(&mut g, 700);
    bei16(&mut g, 0);
    g
}

/// A minimal TrueType font: 1000 units per em, ascent 800, descent -200,
/// glyphs 1..=26 rectangles of width `width_step * i`, mapped from `A`..`Z`
/// and (glyphs 1 and 2 only) from U+E000 and U+E001.
fn build_test_font(width_step: i16) -> Vec<u8> {
    build_font_mapping_a_to(width_step, 1)
}

/// The same font, with the character table sending `A` to glyph
/// `first_glyph` (and `B`..`Z` to the ids after it); an id at or past the 27
/// glyphs of the glyph table makes the mapping dangle.
fn build_font_mapping_a_to(width_step: i16, first_glyph: u16) -> Vec<u8> {
    let glyph_count: u16 = 27; // .notdef + 26

    let mut cmap = Vec::new();
    be16(&mut cmap, 0); // version
    be16(&mut cmap, 1); // one encoding record
    be16(&mut cmap, 3); // platform: Windows
    be16(&mut cmap, 1); // encoding: Unicode BMP
    be32(&mut cmap, 12); // subtable offset
    be16(&mut cmap, 4); // format 4
    be16(&mut cmap, 40); // subtable length
    be16(&mut cmap, 0); // language
    be16(&mut cmap, 6); // segCountX2: three segments
    be16(&mut cmap, 0); // searchRange (unused)
    be16(&mut cmap, 0); // entrySelector (unused)
    be16(&mut cmap, 0); // rangeShift (unused)
    be16(&mut cmap, 0x005A); // end codes: 'Z'
    be16(&mut cmap, 0xE001);
    be16(&mut cmap, 0xFFFF);
    be16(&mut cmap, 0); // reserved
    be16(&mut cmap, 0x0041); // start codes: 'A'
    be16(&mut cmap, 0xE000);
    be16(&mut cmap, 0xFFFF);
    be16(&mut cmap, first_glyph.wrapping_sub(0x41)); // delta: 'A' -> first_glyph
    be16(&mut cmap, 0x2001); // delta: U+E000 -> glyph 1
    be16(&mut cmap, 1);
    be16(&mut cmap, 0); // range offsets: deltas apply directly
    be16(&mut cmap, 0);
    be16(&mut cmap, 0);

    let mut glyf = Vec::new();
    let mut loca = Vec::new();
    be16(&mut loca, 0); // .notdef: empty
    be16(&mut loca, 0);
    for i in 1..=26i16 {
        let g = glyph_data(100 + width_step * i);
        glyf.extend_from_slice(&g);
        be16(&mut loca, (glyf.len() / 2) as u16);
    }

    let mut head = Vec::new();
    be32(&mut head, 0x00010000); // version
    be32(&mut head, 0); // revision
    be32(&mut head, 0); // checksum adjustment
    be32(&mut head, 0x5F0F3CF5); // magic
    be16(&mut head, 0); // flags
    be16(&mut head, 1000); // units per em
    for _ in 0..16 {
        head.push(0); // created + modified
    }
    bei16(&mut head, 0); // xMin
    bei16(&mut head, 0); // yMin
    bei16(&mut head, 1500); // xMax
    bei16(&mut head, 700); // yMax
    be16(&mut head, 0); // mac style
    be16(&mut head, 0); // lowest rec PPEM
    bei16(&mut head, 2); // direction hint
    be16(&mut head, 0); // short loca format
    be16(&mut head, 0); // glyph data format

    let mut hhea = Vec::new();
    be32(&mut hhea, 0x00010000); // version
    bei16(&mut hhea, 800); // ascender
    bei16(&mut hhea, -200); // descender
    bei16(&mut hhea, 0); // line gap
    for _ in 0..24 {
        hhea.push(0);
    }
    be16(&mut hhea, glyph_count); // number of h-metrics

    let mut hmtx = Vec::new();
    for _ in 0..glyph_count {
        be16(&mut hmtx, 600); // advance width
        bei16(&mut hmtx, 100); // left side bearing
    }

    let mut maxp = Vec::new();
    be32(&mut maxp, 0x00010000); // version
    be16(&mut maxp, glyph_count);
    for _ in 0..26 {
        maxp.push(0); // remaining fields of the 1.0 profile
    }

    let tables: Vec<(&[u8; 4], Vec<u8>)> = vec![
        (b"cmap", cmap),
        (b"glyf", glyf),
        (b"head", head),
        (b"hhea", hhea),
        (b"hmtx", hmtx),
        (b"loca", loca),
        (b"maxp", maxp),
    ];

    let mut font = Vec::new();
    be32(&mut font, 0x00010000); // sfnt version
    be16(&mut font, tables.len() as u16);
    be16(&mut font, 0); // searchRange (unused)
    be16(&mut font, 0); // entrySelector (unused)
    be16(&mut font, 0); // rangeShift (unused)
    let mut offset = 12 + 16 * tables.len();
    for (tag, data) in &tables {
        font.extend_from_slice(&tag[..]);
        be32(&mut font, 0); // checksum (not validated)
        be32(&mut font, offset as u32);
        be32(&mut font, data.len() as u32);
        offset += (data.len() + 3) / 4 * 4;
    }
    for (_, data) in &tables {
        font.extend_from_slice(data);
        while font.len() % 4 != 0 {
            font.push(0);
        }
    }
    font
}

fn scale(px: f32) -> ScaleHandle {
    ScaleHandle::new(rusttype::Scale { x: px, y: px })
}

#[test]
fn load_then_lookup_and_rasterize() {
    let mut reg = FontsState::new();
    let name = reg.load_font("fonts/TestMono.ttf", build_test_font(50)).unwrap();
    assert_eq!(name, "TestMono");
    assert!(reg.lookup("TestMono").is_some());
    let bitmaps = rasterize_glyphs(&reg, &name, 65, 1, &scale(20.0)).unwrap();
    assert_eq!(bitmaps.len(), 1);
}

#[test]
fn rasterize_a_to_z_gives_26_bitmaps_in_order() {
    let mut reg = FontsState::new();
    let name = reg.load_font("TestMono.ttf", build_test_font(50)).unwrap();
    let bitmaps = rasterize_glyphs(&reg, &name, 65, 26, &scale(20.0)).unwrap();
    assert_eq!(bitmaps.len(), 26);
    let mut prev_width = 0usize;
    for bm in &bitmaps {
        let height = bm.len();
        assert!(height > 0);
        let width = bm[0].len();
        assert!(width > 0);
        for row in bm {
            assert_eq!(row.len(), width);
        }
        // widths grow with the glyph index, so increasing width means
        // increasing codepoint order
        assert!(width > prev_width);
        prev_width = width;
    }
}

#[test]
fn rasterized_ink_is_full_coverage_inside() {
    let mut reg = FontsState::new();
    let name = reg.load_font("TestMono.ttf", build_test_font(50)).unwrap();
    let bitmaps = rasterize_glyphs(&reg, &name, 90, 1, &scale(40.0)).unwrap();
    let bm = &bitmaps[0];
    // the glyph is a filled rectangle: its central pixel is fully covered
    let mid = &bm[bm.len() / 2];
    assert_eq!(mid[mid.len() / 2], 255);
}

#[test]
fn inkless_codepoints_emit_no_bitmap() {
    let mut reg = FontsState::new();
    let name = reg.load_font("TestMono.ttf", build_test_font(50)).unwrap();
    // the space character maps to the empty .notdef glyph: no bitmap
    let bitmaps = rasterize_glyphs(&reg, &name, 0x20, 1, &scale(20.0)).unwrap();
    assert_eq!(bitmaps.len(), 0);
    // '@', 'A', 'B': the inkless '@' is skipped, two bitmaps remain
    let bitmaps = rasterize_glyphs(&reg, &name, 0x40, 3, &scale(20.0)).unwrap();
    assert_eq!(bitmaps.len(), 2);
}

#[test]
fn surrogates_are_skipped_and_neighbors_processed() {
    let mut reg = FontsState::new();
    let name = reg.load_font("TestMono.ttf", build_test_font(50)).unwrap();
    let font = reg.lookup(&name).unwrap();
    let sc = scale(20.0);
    assert!(rasterize_glyph(font, 0xD800, &sc).is_none());
    assert!(rasterize_glyph(font, 0xE000, &sc).is_some());
    // a range that spans the whole surrogate block: every surrogate is
    // silently skipped, the two mapped neighbors above it are still emitted
    let count = 0xE002 - 0xD7FF;
    let bitmaps = rasterize_glyphs(&reg, &name, 0xD7FF, count, &sc).unwrap();
    assert_eq!(bitmaps.len(), 2);
}

#[test]
fn unknown_font_yields_not_found_and_zero_bitmaps() {
    let mut reg = FontsState::new();
    let r = rasterize_glyphs(&reg, "Missing", 65, 26, &scale(20.0));
    match r {
        Err(FontError::NotFoundError { name }) => {
            assert_eq!(name, "Missing");
        },
        _ => panic!("expected NotFoundError"),
    }
    let err = rasterize_glyphs(&reg, "Missing", 65, 26, &scale(20.0)).unwrap_err();
    assert_eq!(err.message(), "Font not found");
}

#[test]
fn parse_failure_reports_path_and_leaves_registry_unchanged() {
    let mut reg = FontsState::new();
    let r = reg.load_font("dir/Broken.ttf", vec![1, 2, 3, 4]);
    match r {
        Err(e @ FontError::ParseError { .. }) => {
            assert_eq!(e.message(), "Failed to parse font file 'dir/Broken.ttf'");
        },
        _ => panic!("expected ParseError"),
    }
    assert!(reg.lookup("Broken").is_none());
}

#[test]
fn second_load_under_same_stem_wins() {
    let mut reg = FontsState::new();
    let narrow = build_test_font(10);
    let wide = build_test_font(50);
    let n1 = reg.load_font("one/Same.ttf", narrow.clone()).unwrap();
    let w_first = rasterize_glyphs(&reg, &n1, 90, 1, &scale(20.0)).unwrap()[0][0].len();
    let n2 = reg.load_font("two/Same.otf", wide).unwrap();
    assert_eq!(n1, n2);
    let w_second = rasterize_glyphs(&reg, &n2, 90, 1, &scale(20.0)).unwrap()[0][0].len();
    assert!(w_second > w_first);
    // reloading the narrow variant overwrites again
    reg.load_font("one/Same.ttf", narrow).unwrap();
    let w_third = rasterize_glyphs(&reg, &n1, 90, 1, &scale(20.0)).unwrap()[0][0].len();
    assert_eq!(w_third, w_first);
}

#[test]
fn bitmap_dimensions_follow_scale_not_request_size() {
    let mut reg = FontsState::new();
    let name = reg.load_font("TestMono.ttf", build_test_font(50)).unwrap();
    let small = rasterize_glyphs(&reg, &name, 65, 1, &scale(20.0)).unwrap();
    let large = rasterize_glyphs(&reg, &name, 65, 1, &scale(40.0)).unwrap();
    assert!(large[0].len() > small[0].len());
    assert!(large[0][0].len() > small[0][0].len());
    // the same codepoint keeps its dimensions whatever else the request asks for
    let in_long_request = rasterize_glyphs(&reg, &name, 65, 26, &scale(20.0)).unwrap();
    assert_eq!(small[0].len(), in_long_request[0].len());
    assert_eq!(small[0][0].len(), in_long_request[0][0].len());
}

#[test]
fn dangling_character_table_mapping_is_treated_as_inkless() {
    let mut reg = FontsState::new();
    // the font parses, but its character table sends 'A'..'Z' past the end
    // of its 27-glyph glyph table: every such codepoint is skipped
    let name = reg.load_font("Dangling.ttf", build_font_mapping_a_to(50, 100)).unwrap();
    let bitmaps = rasterize_glyphs(&reg, &name, 65, 26, &scale(20.0)).unwrap();
    assert_eq!(bitmaps.len(), 0);
    // U+E000 still maps inside the glyph table and keeps its ink
    let bitmaps = rasterize_glyphs(&reg, &name, 0xE000, 1, &scale(20.0)).unwrap();
    assert_eq!(bitmaps.len(), 1);
}

#[test]
fn range_end_past_u32_max_is_skipped() {
    let mut reg = FontsState::new();
    let name = reg.load_font("TestMono.ttf", build_test_font(50)).unwrap();
    // a range that would overflow the codepoint space holds no valid
    // scalar values at all
    let bitmaps = rasterize_glyphs(&reg, &name, u32::MAX - 1, 5, &scale(20.0)).unwrap();
    assert_eq!(bitmaps.len(), 0);
}
