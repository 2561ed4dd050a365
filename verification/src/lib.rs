//! Backend of a glyph-rendering desktop tool: a registry of parsed fonts,
//! keyed by a name derived from the file the font was loaded from, and a
//! rasterizer that turns a contiguous range of codepoints into per-pixel
//! grayscale coverage bitmaps.
//!
//! Outline parsing, curve flattening and scanline coverage are delegated to
//! the `rusttype` crate; everything around those calls — the registry, the
//! name derivation, the codepoint-range walk and the quantization of coverage
//! values to bytes — is verified.

pub mod codepoints;
pub mod errors;
pub mod fonts;
pub mod name;
pub mod quantize;
pub mod raster;
pub mod registry;
