//! Parsed fonts, rasterization scales, and the trusted boundary to the
//! `rusttype` crate.
//!
//! A [`FontHandle`] pairs a parsed `rusttype` font with the bytes it was
//! parsed from; the bytes are the handle's view, and every contract about
//! rasterization speaks of them.  A [`ScaleHandle`] pairs a `rusttype` scale
//! with the bit patterns of its two components, so that contracts can name
//! the scale without the library ever touching a floating-point value.  The
//! companion fields are filled by the trusted constructors in this module and
//! stay faithful because they are private to it.

use vstd::prelude::*;

verus! {

#[verifier::external_type_specification]
#[verifier::external_body]
pub struct ExFont<'a>(rusttype::Font<'a>);

#[verifier::external_type_specification]
#[verifier::external_body]
pub struct ExScale(rusttype::Scale);

/// Whether `rusttype` parses `data` as a font.
pub uninterp spec fn font_parses(data: Seq<u8>) -> bool;

/// The coverage grid that `rusttype` rasterizes for character `c` of the
/// font parsed from `data`, scaled by the single-precision values encoded by
/// `sx` and `sy` and positioned at the origin: one row per pixel row of the
/// glyph's tight pixel bounding box, each entry the IEEE 754 encoding of that
/// pixel's coverage fraction.  `None` when the glyph has no pixel bounding
/// box, as for a character without visible ink.
pub uninterp spec fn glyph_coverage(data: Seq<u8>, c: char, sx: u32, sy: u32) -> Option<
    Seq<Seq<u32>>,
>;

/// A parsed, immutable font, kept beside the bytes it was parsed from. Its
/// view is that byte sequence.
pub struct FontHandle {
    font: rusttype::Font<'static>,
    data: Vec<u8>,
}

impl View for FontHandle {
    type V = Seq<u8>;

    closed spec fn view(&self) -> Seq<u8> {
        self.data@
    }
}

/// A rasterization scale: a horizontal and a vertical pixel height, kept
/// beside the IEEE 754 bit patterns of the two values.
#[derive(Clone, Copy)]
pub struct ScaleHandle {
    scale: rusttype::Scale,
    sx_bits: u32,
    sy_bits: u32,
}

impl ScaleHandle {
    /// The bit pattern of the horizontal scale.
    pub closed spec fn sx(self) -> u32 {
        self.sx_bits
    }

    /// The bit pattern of the vertical scale.
    pub closed spec fn sy(self) -> u32 {
        self.sy_bits
    }

    /// Whether both components are positive finite values: their bit
    /// patterns lie strictly between zero and the infinity encoding.
    /// Rasterization is defined for such scales alone; a zero, negative or
    /// non-finite scale turns the glyph's pixel bounding box inside out.
    pub open spec fn is_positive(&self) -> bool {
        0 < self.sx() < 0x7F80_0000 && 0 < self.sy() < 0x7F80_0000
    }

    /// Whether this scale may be rasterized with: the runtime mirror of
    /// [`Self::is_positive`], for callers that receive a scale from outside.
    pub fn positive(&self) -> (r: bool)
        ensures
            r == self.is_positive(),
    {
        0 < self.sx_bits && self.sx_bits < 0x7F80_0000 && 0 < self.sy_bits && self.sy_bits
            < 0x7F80_0000
    }

    /// Wraps a `rusttype` scale for use in rasterization requests.
    pub fn new(scale: rusttype::Scale) -> ScaleHandle {
        record_scale(scale)
    }
}

/// Relies on `f32::to_bits` over `rusttype::Scale`'s two public fields: the
/// handle records the bit patterns of the scale's `x` and `y` components,
/// which nothing afterwards can change.
#[verifier::external_body]
fn record_scale(scale: rusttype::Scale) -> (r: ScaleHandle)
{
    ScaleHandle { sx_bits: scale.x.to_bits(), sy_bits: scale.y.to_bits(), scale }
}

/// Relies on `rusttype::Font::try_from_vec`: it returns `Some` exactly when
/// the bytes parse as a font collection's first face; the handle keeps those
/// bytes as its view.
#[verifier::external_body]
pub(crate) fn parse_font_bytes(data: Vec<u8>) -> (r: Option<FontHandle>)
    ensures
        r is Some <==> font_parses(data@),
        r matches Some(h) ==> h@ == data@,
{
    match rusttype::Font::try_from_vec(data.clone()) {
        Some(font) => Some(FontHandle { font, data }),
        None => None,
    }
}

/// Relies on `rusttype`'s `Font::glyph`, `Glyph::scaled`,
/// `ScaledGlyph::positioned`, `PositionedGlyph::pixel_bounding_box` and
/// `PositionedGlyph::draw`: with the position fixed at the origin, the pixel
/// bounding box and the per-pixel coverage depend on the font's bytes, the
/// character and the scale alone; `pixel_bounding_box` is `Some` exactly when
/// the glyph has visible extent; and `draw` reports one coverage fraction for
/// every pixel of the box, in row-major order, so the grid is rectangular
/// with the box's dimensions.  The positive-scale precondition keeps the box
/// well ordered (a zero, negative or non-finite scale inverts or overflows
/// it); a character whose mapping in the font's character table points past
/// the font's glyph table — which parsing does not rule out, and on which
/// `Font::glyph` would assert — is treated as a glyph without visible
/// extent, and so is a glyph whose pixel box comes out degenerate or
/// inverted, as a malformed outline record can make it.
#[verifier::external_body]
pub(crate) fn draw_glyph(font: &FontHandle, c: char, scale: &ScaleHandle) -> (r: Option<
    Vec<Vec<u32>>,
>)
    requires
        scale.is_positive(),
    ensures
        r is Some <==> glyph_coverage(font@, c, scale.sx(), scale.sy()) is Some,
        r matches Some(g) ==> Some(g.deep_view()) == glyph_coverage(
            font@,
            c,
            scale.sx(),
            scale.sy(),
        ),
        r matches Some(g) ==> forall|i: int|
            0 <= i < g@.len() ==> (#[trigger] g@[i]@.len()) == g@[0]@.len(),
{
    let id = rusttype::IntoGlyphId::into_glyph_id(c, &font.font);
    if id.0 as usize >= font.font.glyph_count() { return None; }
    let glyph = font.font.glyph(id).scaled(scale.scale).positioned(
        rusttype::point(Default::default(), Default::default()),
    );
    let bb = match glyph.pixel_bounding_box() {
        Some(bb) => bb,
        None => return None,
    };
    if bb.width() <= 0 || bb.height() <= 0 { return None; }
    let mut grid = vec![vec![0u32; bb.width() as usize]; bb.height() as usize];
    glyph.draw(|x, y, v| {
        grid[y as usize][x as usize] = v.to_bits();
    });
    Some(grid)
}

} // verus!
