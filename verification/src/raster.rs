//! Rasterization of a contiguous codepoint range into coverage bitmaps.
//!
//! For each codepoint of the requested range, in increasing order: a numeric
//! value that is not a Unicode scalar value is silently skipped; a glyph
//! without a pixel bounding box (no visible ink) is silently skipped; every
//! other codepoint yields exactly one bitmap, sized to the glyph's tight
//! pixel bounding box at the requested scale and holding one coverage byte
//! per pixel.

use crate::codepoints::{codepoint_to_char, is_scalar_value};
use crate::errors::FontError;
use crate::fonts::{draw_glyph, glyph_coverage, FontHandle, ScaleHandle};
use crate::quantize::coverage_level;
use crate::quantize::quantize;
use crate::registry::FontsState;
use vstd::prelude::*;

verus! {

/// A rasterized glyph: rows of coverage bytes over the glyph's tight pixel
/// bounding box, row-major.
pub type RasterizedGlyph = Vec<Vec<u8>>;

/// The coverage byte for the single-precision encoding `bits`.
pub open spec fn quantized(bits: u32) -> u8 {
    coverage_level(bits) as u8
}

/// Every coverage value of a grid, quantized to a byte.
pub open spec fn quantize_grid_spec(g: Seq<Seq<u32>>) -> Seq<Seq<u8>> {
    g.map_values(|row: Seq<u32>| row.map_values(|bits: u32| quantized(bits)))
}

/// The bitmap emitted for codepoint `cp` of the font parsed from `data` at
/// the scale encoded by `sx` and `sy`: `None` when `cp` is not a Unicode
/// scalar value or the glyph has no pixel bounding box, the quantized
/// coverage grid otherwise.
pub open spec fn spec_bitmap(data: Seq<u8>, cp: int, sx: u32, sy: u32) -> Option<Seq<Seq<u8>>> {
    if 0 <= cp <= u32::MAX && is_scalar_value(cp as u32) {
        match glyph_coverage(data, (cp as u32) as char, sx, sy) {
            Some(g) => Some(quantize_grid_spec(g)),
            None => None,
        }
    } else {
        None
    }
}

/// The bitmaps emitted for the codepoint range `[start, start + count)`, in
/// increasing codepoint order: one bitmap per codepoint that yields one,
/// nothing for the others.
pub open spec fn spec_bitmaps(data: Seq<u8>, start: int, count: nat, sx: u32, sy: u32) -> Seq<
    Seq<Seq<u8>>,
>
    decreases count,
{
    if count == 0 {
        Seq::empty()
    } else {
        spec_bitmaps(data, start, (count - 1) as nat, sx, sy) + match spec_bitmap(
            data,
            start + count - 1,
            sx,
            sy,
        ) {
            Some(b) => seq![b],
            None => Seq::empty(),
        }
    }
}

/// Quantizes every coverage value of a grid to a byte.
fn quantize_grid(g: &Vec<Vec<u32>>) -> (r: Vec<Vec<u8>>)
    ensures
        r.deep_view() == quantize_grid_spec(g.deep_view()),
{
    let mut r: Vec<Vec<u8>> = Vec::new();
    let mut i: usize = 0;
    while i < g.len()
        invariant
            i <= g.len(),
            r.deep_view() =~= quantize_grid_spec(g.deep_view().take(i as int)),
        decreases g.len() - i,
    {
        let row = &g[i];
        let mut out: Vec<u8> = Vec::new();
        let mut j: usize = 0;
        while j < row.len()
            invariant
                j <= row.len(),
                out@ =~= row@.take(j as int).map_values(|bits: u32| quantized(bits)),
            decreases row.len() - j,
        {
            out.push(quantize(row[j]));
            assert(row@.take(j + 1 as int).drop_last() =~= row@.take(j as int));
            assert(row@.take(j + 1 as int).last() == row@[j as int]);
            j += 1;
        }
        assert(row@.take(row@.len() as int) =~= row@);
        assert(out.deep_view() =~= out@);
        assert(g.deep_view()[i as int] =~= row@);
        let ghost prev = r.deep_view();
        let ghost outv = out.deep_view();
        let ghost gd = g.deep_view();
        proof {
            assert forall|k: int| 0 <= k < i implies #[trigger] prev[k] == quantize_grid_spec(
                gd.take(i + 1),
            )[k] by {
                assert(prev[k] == quantize_grid_spec(gd.take(i as int))[k]);
                assert(gd.take(i as int)[k] == gd[k]);
                assert(gd.take(i + 1)[k] == gd[k]);
            }
            assert(quantize_grid_spec(gd.take(i + 1))[i as int] == gd[i as int].map_values(
                |bits: u32| quantized(bits),
            ));
            assert(prev.push(outv) =~= quantize_grid_spec(gd.take(i + 1)));
        }
        r.push(out);
        assert(r.deep_view() =~= prev.push(outv));
        i += 1;
        assert(r.deep_view() =~= quantize_grid_spec(g.deep_view().take(i as int)));
    }
    assert(g.deep_view().take(g@.len() as int) =~= g.deep_view());
    r
}

/// Rasterizes a single codepoint: the bitmap for its glyph at the given
/// scale, or `None` when the codepoint is not a Unicode scalar value or the
/// glyph has no pixel bounding box.  The scale must be positive and finite;
/// `ScaleHandle::positive` tests this at runtime.
pub fn rasterize_glyph(font: &FontHandle, cp: u32, scale: &ScaleHandle) -> (r: Option<
    RasterizedGlyph,
>)
    requires
        scale.is_positive(),
    ensures
        r is Some <==> spec_bitmap(font@, cp as int, scale.sx(), scale.sy()) is Some,
        r matches Some(b) ==> Some(b.deep_view()) == spec_bitmap(
            font@,
            cp as int,
            scale.sx(),
            scale.sy(),
        ),
{
    match codepoint_to_char(cp) {
        None => None,
        Some(c) => {
            proof {
                vstd::utf8::char_u32_cast(c, cp);
            }
            match draw_glyph(font, c, scale) {
                None => None,
                Some(g) => Some(quantize_grid(&g)),
            }
        },
    }
}

/// Rasterizes the codepoint range `[start, start + count)` against a font:
/// exactly the bitmaps of `spec_bitmaps`, in increasing codepoint order.
/// The scale must be positive and finite.
pub fn rasterize_font_range(font: &FontHandle, start: u32, count: u32, scale: &ScaleHandle) -> (r:
    Vec<RasterizedGlyph>)
    requires
        scale.is_positive(),
    ensures
        r.deep_view() == spec_bitmaps(font@, start as int, count as nat, scale.sx(), scale.sy()),
{
    let mut r: Vec<RasterizedGlyph> = Vec::new();
    let mut i: u32 = 0;
    while i < count
        invariant
            scale.is_positive(),
            i <= count,
            r.deep_view() =~= spec_bitmaps(font@, start as int, i as nat, scale.sx(), scale.sy()),
        decreases count - i,
    {
        if (start as u64) + (i as u64) <= (u32::MAX as u64) {
            let cp: u32 = start + i;
            match rasterize_glyph(font, cp, scale) {
                Some(b) => {
                    r.push(b);
                },
                None => {},
            }
        } else {
            assert(!(start as int + i as int <= u32::MAX as int));
        }
        i += 1;
        assert(r.deep_view() =~= spec_bitmaps(
            font@,
            start as int,
            i as nat,
            scale.sx(),
            scale.sy(),
        ));
    }
    r
}

/// Rasterizes the codepoint range `[starting_glyph, starting_glyph +
/// glyph_count)` against the font registered under `font_name`: exactly the
/// bitmaps of `spec_bitmaps` over that font's bytes, in increasing codepoint
/// order.  An unregistered name fails with `NotFoundError` before any glyph
/// is processed, yielding zero bitmaps.  The scale must be positive and
/// finite; `ScaleHandle::positive` tests this at runtime.
pub fn rasterize_glyphs(
    state: &FontsState,
    font_name: &str,
    starting_glyph: u32,
    glyph_count: u32,
    scale: &ScaleHandle,
) -> (r: Result<Vec<RasterizedGlyph>, FontError>)
    requires
        state.wf(),
        scale.is_positive(),
    ensures
        r is Ok <==> state@.contains_key(font_name@),
        r matches Ok(bs) ==> bs.deep_view() == spec_bitmaps(
            state@[font_name@],
            starting_glyph as int,
            glyph_count as nat,
            scale.sx(),
            scale.sy(),
        ),
        r matches Err(e) ==> e matches FontError::NotFoundError { name } && name@ == font_name@,
{
    match state.lookup(font_name) {
        None => Err(FontError::NotFoundError { name: font_name.to_owned() }),
        Some(font) => Ok(rasterize_font_range(font, starting_glyph, glyph_count, scale)),
    }
}

/// The codepoints of `[start, start + count)` whose glyphs emit a bitmap, in
/// increasing order.
pub open spec fn spec_emitted(data: Seq<u8>, start: int, count: nat, sx: u32, sy: u32) -> Seq<int>
    decreases count,
{
    if count == 0 {
        Seq::empty()
    } else {
        spec_emitted(data, start, (count - 1) as nat, sx, sy) + if spec_bitmap(
            data,
            start + count - 1,
            sx,
            sy,
        ) is Some {
            seq![start + count - 1]
        } else {
            Seq::empty()
        }
    }
}

/// Rasterizing a range emits exactly one bitmap per codepoint whose glyph
/// yields one — no bitmap for an invalid scalar value or an inkless glyph —
/// and the bitmaps come in strictly increasing codepoint order.
pub proof fn lemma_bitmaps_in_codepoint_order(
    data: Seq<u8>,
    start: int,
    count: nat,
    sx: u32,
    sy: u32,
)
    ensures
        spec_emitted(data, start, count, sx, sy).len() == spec_bitmaps(
            data,
            start,
            count,
            sx,
            sy,
        ).len(),
        forall|k: int|
            0 <= k < spec_emitted(data, start, count, sx, sy).len() ==> {
                let cp = #[trigger] spec_emitted(data, start, count, sx, sy)[k];
                start <= cp < start + count && (spec_bitmap(data, cp, sx, sy) matches Some(b)
                    && spec_bitmaps(data, start, count, sx, sy)[k] == b)
            },
        forall|k1: int, k2: int|
            0 <= k1 < k2 < spec_emitted(data, start, count, sx, sy).len() ==> spec_emitted(
                data,
                start,
                count,
                sx,
                sy,
            )[k1] < spec_emitted(data, start, count, sx, sy)[k2],
        forall|cp: int|
            start <= cp < start + count && spec_bitmap(data, cp, sx, sy) is Some ==> spec_emitted(
                data,
                start,
                count,
                sx,
                sy,
            ).contains(cp),
    decreases count,
{
    if count > 0 {
        lemma_bitmaps_in_codepoint_order(data, start, (count - 1) as nat, sx, sy);
        let last = start + count - 1;
        let prev_e = spec_emitted(data, start, (count - 1) as nat, sx, sy);
        let cur_e = spec_emitted(data, start, count, sx, sy);
        assert forall|cp: int|
            start <= cp < start + count && spec_bitmap(data, cp, sx, sy) is Some implies cur_e
            .contains(cp) by {
            if cp < last {
                assert(prev_e.contains(cp));
                let j = choose|j: int| 0 <= j < prev_e.len() && prev_e[j] == cp;
                assert(cur_e[j] == cp);
            } else {
                assert(cur_e[cur_e.len() - 1] == cp);
            }
        }
    }
}

/// An emitted bitmap has exactly the dimensions of the coverage grid that
/// the rasterizer reports for the glyph's tight pixel bounding box at the
/// requested scale: one row per pixel row, one byte per pixel.  No other
/// requested quantity enters the dimensions.
pub proof fn lemma_bitmap_dims(data: Seq<u8>, cp: int, sx: u32, sy: u32)
    ensures
        spec_bitmap(data, cp, sx, sy) matches Some(b) ==> {
            &&& 0 <= cp <= u32::MAX
            &&& is_scalar_value(cp as u32)
            &&& glyph_coverage(data, (cp as u32) as char, sx, sy) matches Some(g) && b.len()
                == g.len() && (forall|i: int| 0 <= i < g.len() ==> b[i].len() == (#[trigger] g[i]).len())
        },
{
}

} // verus!

