//! The trusted boundary to the outside font and shaping engine.
//!
//! The engine's own state — lines, cursor, metrics, sizes, the pixel buffer —
//! is plain verified data.  Shaping text into positioned glyph runs and
//! rasterizing glyph outlines into coverage spans is the work of the
//! `cosmic_text` crate; the wrappers below hold those calls and nothing else.
//! What shaping returns depends on the fonts the font system loaded, so the
//! wrappers state only what holds of every outcome.

use vstd::prelude::*;
use crate::raster::draw_span;

verus! {

#[verifier::external_type_specification]
#[verifier::external_body]
pub struct ExFontSystem(cosmic_text::FontSystem);

#[verifier::external_type_specification]
#[verifier::external_body]
pub struct ExSwashCache(cosmic_text::SwashCache);

#[verifier::external_type_specification]
#[verifier::external_body]
pub struct ExShapeBuffer(cosmic_text::Buffer);

/// Relies on `cosmic_text::Buffer::set_text` (with `cosmic_text::Attrs::new`,
/// the default attributes): replaces the shaping buffer's lines with the
/// lines of `text` and reshapes them.  The font system must already hold at
/// least one font — the host initializes it before any pass runs, and
/// `cosmic_text` aborts the process on an uninitialized one.
#[verifier::external_body]
pub(crate) fn ct_set_text(fs: &mut cosmic_text::FontSystem, ct: &mut cosmic_text::Buffer, text: &str) {
    ct.set_text(fs, text, cosmic_text::Attrs::new());
}

/// Relies on `cosmic_text::Buffer::shape_until_scroll`: lays out every line
/// visible at the buffer's current scroll position.  As with `ct_set_text`,
/// the font system must already hold at least one font.
#[verifier::external_body]
pub(crate) fn ct_shape(fs: &mut cosmic_text::FontSystem, ct: &mut cosmic_text::Buffer) {
    ct.shape_until_scroll(fs);
}

/// Relies on `cosmic_text::Buffer::layout_runs`: yields one run per laid-out
/// visual line, whose `line_w` is that line's pixel width; each width is
/// truncated to whole pixels.  Which widths come back depends on the loaded
/// fonts, so nothing is assumed of them.
#[verifier::external_body]
pub(crate) fn ct_line_widths(ct: &cosmic_text::Buffer) -> Vec<i32> {
    ct.layout_runs().map(|run| run.line_w as i32).collect()
}

/// Relies on `cosmic_text::Buffer::draw` (with `cosmic_text::Color::rgb`):
/// invokes its callback once per covered span of each laid-out glyph, handing
/// over the span's position, extent and color.  The callback composites each
/// span into `pixels` through the verified `draw_span`, which preserves the
/// buffer's length — the single fact stated here.  Which spans arrive depends
/// on the loaded fonts and the glyph cache, so nothing more is assumed.
#[verifier::external_body]
pub(crate) fn ct_draw(
    fs: &mut cosmic_text::FontSystem,
    sc: &mut cosmic_text::SwashCache,
    ct: &cosmic_text::Buffer,
    red: u8,
    green: u8,
    blue: u8,
    pixels: &mut Vec<u8>,
    width: i32,
    height: i32,
    off_x: i32,
    off_y: i32,
)
    requires
        0 <= width,
        0 <= height,
        old(pixels)@.len() == width as int * height as int * 4,
    ensures
        final(pixels)@.len() == old(pixels)@.len(),
{
    ct.draw(fs, sc, cosmic_text::Color::rgb(red, green, blue), |x, y, w, h, color| {
        draw_span(pixels, width, height, x, y, w, h, off_x, off_y, color.0);
    });
}

/// Relies on `String`'s `FromIterator<char>` impl (`String::from_iter`): the
/// resulting string holds exactly the given characters in order.
#[verifier::external_body]
pub(crate) fn string_from_chars(v: &Vec<char>) -> (r: String)
    ensures
        r@ == v@,
{
    String::from_iter(v.iter().copied())
}


/// The process-wide font system slot.  The host fills it once at startup —
/// loading fonts is its work — and every dispatch or rasterize pass borrows
/// the font system exclusively for one call.  A pass that runs before
/// initialization is a startup error, surfaced by `is_initialized` rather
/// than by a crash inside the shaping engine.
pub struct FontSystemState {
    pub font_system: Option<cosmic_text::FontSystem>,
}

impl FontSystemState {
    /// Whether the host has initialized the font system; no pass may run
    /// before this holds.
    pub fn is_initialized(&self) -> (r: bool)
        ensures
            r == (self.font_system is Some),
    {
        self.font_system.is_some()
    }
}

} // verus!
