//! Tests of the alpha compositor and the coordinate mapper, over plain
//! values: the blend rules byte for byte, the silent clipping, and the
//! centering offsets.

use cosmic_edit::mapper::{buffer_local_coord, get_node_cursor_pos, x_offset_of, y_offset_of};
use cosmic_edit::raster::{draw_pixel, draw_span};

/// A 2x2 RGBA buffer with distinct bytes.
fn sample() -> Vec<u8> {
    (1u8..=16u8).collect()
}

#[test]
fn test_blend_alpha_zero_noop() {
    let mut buf = sample();
    let before = buf.clone();
    // Alpha 0: every byte of every pixel stays untouched.
    draw_pixel(&mut buf, 2, 2, 0, 0, 0x00FF_FFFF);
    assert_eq!(buf, before);
}

#[test]
fn test_blend_replace_full_alpha() {
    let mut buf = sample();
    // Alpha 255: the stored bytes become exactly the source's (R,G,B,A).
    draw_pixel(&mut buf, 2, 2, 1, 0, 0xFF11_2233);
    assert_eq!(&buf[4..8], &[0x11, 0x22, 0x33, 0xFF]);
    // The other pixels are untouched.
    assert_eq!(&buf[0..4], &[1, 2, 3, 4]);
    assert_eq!(&buf[8..16], &[9, 10, 11, 12, 13, 14, 15, 16]);
}

#[test]
fn test_bounds_clipping() {
    let mut buf = sample();
    let before = buf.clone();
    draw_pixel(&mut buf, 2, 2, -1, 0, 0xFFFF_FFFF);
    draw_pixel(&mut buf, 2, 2, 2, 0, 0xFFFF_FFFF);
    draw_pixel(&mut buf, 2, 2, 0, -3, 0xFFFF_FFFF);
    draw_pixel(&mut buf, 2, 2, 0, 2, 0xFFFF_FFFF);
    draw_pixel(&mut buf, 2, 2, i32::MIN, i32::MAX, 0xFFFF_FFFF);
    assert_eq!(buf, before);
}

#[test]
fn test_blend_replaces_empty_destination() {
    // A partially transparent source replaces an all-zero destination whole.
    let mut buf = vec![0u8; 4];
    draw_pixel(&mut buf, 1, 1, 0, 0, 0x80FF_0000);
    assert_eq!(buf, vec![0xFF, 0x00, 0x00, 0x80]);
}

#[test]
fn test_blend_partial_alpha_exact() {
    // Destination (R,G,B,A) = (0,0,0,255), source red at alpha 128.
    // Red/blue lane: (127*0x000000 + 128*0xFF0000) >> 8 = 0x7F8000,
    // masked to 0x7F0000.  Alpha/green lane: 127*0x00FF0000
    // + 128*(0x01000000 | 0) = 0xFE810000, masked to 0xFE000000.
    // Packed result 0xFE7F0000, stored as (R,G,B,A) = (0x7F,0,0,0xFE).
    let mut buf = vec![0x00, 0x00, 0x00, 0xFF];
    draw_pixel(&mut buf, 1, 1, 0, 0, 0x80FF_0000);
    assert_eq!(buf, vec![0x7F, 0x00, 0x00, 0xFE]);
}

#[test]
fn test_draw_span_covers_rect() {
    let mut buf = vec![0u8; 16];
    // A 2x2 span at the origin, fully opaque white: every pixel replaced.
    draw_span(&mut buf, 2, 2, 0, 0, 2, 2, 0, 0, 0xFFFF_FFFF);
    assert_eq!(buf, vec![0xFF; 16]);
}

#[test]
fn test_draw_span_clips_at_edges() {
    let mut buf = vec![0u8; 16];
    // The span hangs off the right and bottom edges: only (1,1) is inside.
    draw_span(&mut buf, 2, 2, 1, 1, 2, 2, 0, 0, 0xFF01_0203);
    assert_eq!(&buf[0..12], &[0u8; 12]);
    assert_eq!(&buf[12..16], &[0x01, 0x02, 0x03, 0xFF]);
}

#[test]
fn test_draw_span_applies_offsets() {
    let mut buf = vec![0u8; 16];
    // Glyph position (0,0) shifted by the alignment offset (1,0).
    draw_span(&mut buf, 2, 2, 0, 0, 1, 1, 1, 0, 0xFFAA_BBCC);
    assert_eq!(&buf[0..4], &[0u8; 4]);
    assert_eq!(&buf[4..8], &[0xAA, 0xBB, 0xCC, 0xFF]);
}

#[test]
fn test_centering_offsets() {
    // A 200x100 surface, one line of shaped width 50 at line height 20:
    // vertical offset (100 - 20) / 2 = 40, horizontal (200 - 50) / 2 = 75.
    assert_eq!(y_offset_of(100, 20, 1), 40);
    assert_eq!(x_offset_of(200, 50), 75);
}

#[test]
fn test_centering_clamps_wide_line() {
    // A line wider than the surface gives offset 0, never negative.
    assert_eq!(x_offset_of(200, 900), 0);
    // More lines than fit: the visible block fills the height.
    assert_eq!(y_offset_of(100, 20, 9), 0);
}

#[test]
fn test_node_cursor_pos_hit_and_miss() {
    // Window 600 tall; surface centered at (400, 300), 200x100.
    let hit = get_node_cursor_pos(600, 400, 300, 200, 100, Some((400, 300)));
    assert_eq!(hit, Some((100, 50)));
    let miss = get_node_cursor_pos(600, 400, 300, 200, 100, Some((100, 100)));
    assert_eq!(miss, None);
    let none = get_node_cursor_pos(600, 400, 300, 200, 100, None);
    assert_eq!(none, None);
}

#[test]
fn test_buffer_local_coord_scales_and_shifts() {
    assert_eq!(buffer_local_coord(100, 2, 1, 30), 170);
    // A fractional scale factor of 3/2.
    assert_eq!(buffer_local_coord(100, 3, 2, 0), 150);
    // The offset can push the coordinate negative.
    assert_eq!(buffer_local_coord(10, 1, 1, 40), -30);
}
