//! Tests of the shape-and-rasterize pipeline against the real shaping engine:
//! the lazy reshape's idempotence and the redraw gate.

use cosmic_edit::editor::{CosmicEditImage, CosmicEditMeta, CosmicTextPos};
use cosmic_edit::render::cosmic_edit_redraw_buffer;
use cosmic_text::{Buffer, FontSystem, Metrics, SwashCache};

fn meta(text: &str) -> CosmicEditMeta {
    CosmicEditMeta {
        text: text.to_string(),
        text_pos: CosmicTextPos::Center,
        initial_size: Some((200, 100)),
        font_size: 18,
        line_height: 20,
        scale_num: 1,
        scale_den: 1,
        is_visible: true,
    }
}

fn fresh_shape_buffer(fs: &mut FontSystem, ce: &CosmicEditImage) -> Buffer {
    let b = &ce.editor.buffer;
    let mut ct = Buffer::new(fs, Metrics::new(b.font_size as f32, b.line_height as f32));
    ct.set_size(fs, b.width as f32, b.height as f32);
    ct
}

#[test]
fn test_reshape_is_idempotent() {
    let mut fs = FontSystem::new();
    let mut ce = CosmicEditImage::from_meta(meta("Blah"));
    assert!(ce.editor.buffer.needs_reshape());
    let fresh = fresh_shape_buffer(&mut fs, &ce);
    ce.editor.buffer.shape_as_needed(&mut fs, fresh);
    assert!(!ce.editor.buffer.needs_reshape());
    let width_once = ce.editor.buffer.max_line_width();
    let redraw_once = ce.editor.buffer.redraw;
    // A second reshape with no intervening mutation changes nothing: the
    // cached widths are identical and the redraw flag is not toggled.
    let fresh2 = fresh_shape_buffer(&mut fs, &ce);
    ce.editor.buffer.shape_as_needed(&mut fs, fresh2);
    assert!(!ce.editor.buffer.needs_reshape());
    assert_eq!(ce.editor.buffer.max_line_width(), width_once);
    assert_eq!(ce.editor.buffer.redraw, redraw_once);
}

#[test]
fn test_mutation_invalidates_shape() {
    let mut fs = FontSystem::new();
    let mut ce = CosmicEditImage::from_meta(meta("Blah"));
    let fresh = fresh_shape_buffer(&mut fs, &ce);
    ce.editor.buffer.shape_as_needed(&mut fs, fresh);
    assert!(!ce.editor.buffer.needs_reshape());
    ce.editor.insert_char('x');
    assert!(ce.editor.buffer.needs_reshape());
}

#[test]
fn test_redraw_gate_and_pixel_size() {
    let mut fs = FontSystem::new();
    let mut sc = SwashCache::new();
    let mut ce = CosmicEditImage::from_meta(meta("Blah"));
    let fresh = fresh_shape_buffer(&mut fs, &ce);
    ce.editor.buffer.shape_as_needed(&mut fs, fresh);
    assert!(ce.editor.buffer.redraw);
    let pixels = cosmic_edit_redraw_buffer(&mut ce, &mut fs, &mut sc)
        .expect("a pending redraw yields a pixel buffer");
    assert_eq!(pixels.len(), 200 * 100 * 4);
    assert!(!ce.editor.buffer.redraw);
    // The flag is clear: a second pass produces nothing.
    assert!(cosmic_edit_redraw_buffer(&mut ce, &mut fs, &mut sc).is_none());
}

#[test]
fn test_shaped_line_width_positive_with_fonts() {
    // With real fonts loaded, a shaped non-empty line has positive width, so
    // the trusted width collection demonstrably reports the layout and not
    // its input back.
    let mut fs = FontSystem::new();
    let mut ce = CosmicEditImage::from_meta(meta("Blah"));
    let fresh = fresh_shape_buffer(&mut fs, &ce);
    ce.editor.buffer.shape_as_needed(&mut fs, fresh);
    if !fs.db().is_empty() {
        assert!(ce.editor.buffer.max_line_width() > 0);
    }
}
