//! The rasterization pass: when an editor's redraw flag is set, allocate a
//! zero-filled RGBA pixel buffer of the surface's size, composite every glyph
//! span of the shaped layout into it at the alignment offset, and clear the
//! flag.  The completed buffer is handed back for the host to upload.

use vstd::prelude::*;
use crate::buffer::TextBuffer;
use crate::editor::{Editor, CosmicEditImage, CosmicTextPos};
use crate::mapper::{get_x_offset, get_y_offset};
use crate::shaping::ct_draw;

verus! {

/// Rasterizes one editor surface, only when its redraw flag is set (after
/// `shape_as_needed`, which the caller runs first).  The surface's pixel
/// dimensions are at least 1 — `set_size` clamps them — so the image is
/// never degenerate.  On a redraw the result
/// is a pixel buffer of exactly width * height * 4 bytes in (R, G, B, A)
/// order with every glyph span composited in, and the redraw flag is
/// cleared; otherwise nothing changes and no buffer is produced.
#[verifier::loop_isolation(false)]
pub fn cosmic_edit_redraw_buffer(
    ce: &mut CosmicEditImage,
    fs: &mut cosmic_text::FontSystem,
    sc: &mut cosmic_text::SwashCache,
) -> (r: Option<Vec<u8>>)
    requires
        old(ce).wf(),
        old(ce).editor.buffer.shaped is Some,
    ensures
        final(ce).wf(),
        !old(ce).editor.buffer.redraw ==> (r is None) && *final(ce) == *old(ce),
        old(ce).editor.buffer.redraw ==> {
            &&& r matches Option::Some(pixels) && pixels@.len() == old(ce).editor.buffer.width
                as int * old(ce).editor.buffer.height as int * 4
            &&& *final(ce) == (CosmicEditImage {
                editor: Editor {
                    buffer: TextBuffer { redraw: false, ..old(ce).editor.buffer },
                    ..old(ce).editor
                },
                ..*old(ce)
            })
        },
{
    if !ce.editor.buffer.redraw() {
        return None;
    }
    let w = ce.editor.buffer.width;
    let h = ce.editor.buffer.height;
    proof {
        assert(0 <= (w as int) * (h as int) * 4 && (w as int) * (h as int) * 4
            <= 0x4000_0000) by (nonlinear_arith)
            requires
                1 <= (w as int) <= 16384,
                1 <= (h as int) <= 16384,
        ;
    }
    let len: usize = (w as usize) * (h as usize) * 4;
    let mut pixels: Vec<u8> = Vec::new();
    let mut filled: usize = 0;
    while filled < len
        invariant
            filled <= len,
            pixels@.len() == filled,
        decreases len - filled,
    {
        pixels.push(0);
        filled = filled + 1;
    }
    let (off_y, off_x): (i32, i32) = match ce.text_pos {
        CosmicTextPos::Center => (get_y_offset(&ce.editor.buffer), get_x_offset(&ce.editor.buffer)),
        CosmicTextPos::TopLeft => (0, 0),
    };
    match &ce.editor.buffer.shaped {
        Option::Some(cache) => {
            ct_draw(fs, sc, &cache.handle, 0, 0, 0, &mut pixels, w as i32, h as i32, off_x, off_y);
        },
        Option::None => {},
    }
    ce.editor.buffer.set_redraw(false);
    Some(pixels)
}

} // verus!
