//! Byte-level alpha compositing into an RGBA pixel buffer.
//!
//! A color is a 32-bit packed value with byte layout (alpha, red, green, blue)
//! from most- to least-significant byte.  The pixel buffer stores four bytes
//! per pixel in (R, G, B, A) order.  The blend rule is a fixed-point
//! approximate "over" operator: the red and blue channels are blended jointly
//! in one 32-bit lane, alpha and green jointly in a second lane where the
//! source's alpha contribution is forced to a full-opacity marker OR-ed with
//! the source's shifted green byte.  The second lane deliberately omits a
//! final division-by-255 correction; the formulas below state the stored
//! behaviour exactly and must not be "corrected".

use vstd::prelude::*;
use vstd::std_specs::vec::axiom_spec_len;

verus! {

/// Alpha byte of a packed color.
pub open spec fn color_alpha(color: u32) -> u32 {
    (color >> 24) & 0xFF
}

/// Red byte of a packed color.
pub open spec fn color_red(color: u32) -> u32 {
    (color >> 16) & 0xFF
}

/// Green byte of a packed color.
pub open spec fn color_green(color: u32) -> u32 {
    (color >> 8) & 0xFF
}

/// Blue byte of a packed color.
pub open spec fn color_blue(color: u32) -> u32 {
    color & 0xFF
}

/// The packed color reconstructed from the four stored bytes of the pixel
/// starting at byte offset `off`: stored order is (R, G, B, A), packed order
/// is (A, R, G, B) from most-significant byte down.
pub open spec fn packed_at(buf: Seq<u8>, off: int) -> u32 {
    (buf[off + 2] as u32) | ((buf[off + 1] as u32) << 8) | ((buf[off] as u32) << 16) | ((buf[off
        + 3] as u32) << 24)
}

/// The red+blue lane of the blend: both bytes are scaled jointly in one
/// 32-bit lane and shifted back down.  All intermediate values stay below
/// 2^32, so the `as u32` casts at the use sites do not truncate.
pub open spec fn blend_rb(cur: u32, color: u32, a: int) -> int {
    ((255 - a) * ((cur & 0x00FF00FF) as int) + a * ((color & 0x00FF00FF) as int)) / 256
}

/// The alpha+green lane of the blend: the destination lane is scaled by the
/// remaining alpha, and the source contributes a full-opacity marker
/// (0x01000000) plus its green byte, scaled by the source alpha.  There is no
/// final division on this lane.
pub open spec fn blend_ag(cur: u32, color: u32, a: int) -> int {
    (255 - a) * (((cur & 0xFF00FF00) >> 8) as int) + a * (0x01000000 + color_green(color) as int)
}

/// Compositing a source color onto a destination packed value.
/// - a fully opaque source, or an all-zero destination, replaces the
///   destination exactly;
/// - otherwise the two lanes are blended and re-masked into place.
///
/// A fully transparent source never reaches this function at the pixel level
/// (the compositor returns before reading the destination), but for that case
/// this function returns the destination unchanged.
pub open spec fn blend(cur: u32, color: u32) -> u32 {
    if color_alpha(color) == 0 {
        cur
    } else if color_alpha(color) >= 255 || cur == 0 {
        color
    } else {
        let a = color_alpha(color) as int;
        ((blend_rb(cur, color, a) as u32) & 0x00FF00FF) | ((blend_ag(cur, color, a) as u32)
            & 0xFF00FF00)
    }
}

/// The pixel buffer after compositing `color` at pixel (x, y) of a
/// width*height RGBA buffer: a no-op if the source is fully transparent or
/// the coordinate lies outside the buffer, else the four stored bytes of that
/// pixel are replaced by the unpacking of the blended value.
pub open spec fn draw_pixel_spec(
    buf: Seq<u8>,
    width: int,
    height: int,
    x: int,
    y: int,
    color: u32,
) -> Seq<u8> {
    if color_alpha(color) == 0 || x < 0 || x >= width || y < 0 || y >= height {
        buf
    } else {
        let off = (y * width + x) * 4;
        let c = blend(packed_at(buf, off), color);
        buf.update(off + 2, c as u8).update(off + 1, (c >> 8) as u8).update(
            off,
            (c >> 16) as u8,
        ).update(off + 3, (c >> 24) as u8)
    }
}

/// Composites `color` into the pixel at (x, y), blending with the current
/// bytes as `blend` states.  A fully transparent source (alpha 0) leaves the
/// buffer untouched; coordinates outside [0,width) x [0,height) are silently
/// clipped; a fully opaque source replaces the stored bytes with the source's
/// (R, G, B, A) decomposition exactly.
pub fn draw_pixel(buffer: &mut Vec<u8>, width: i32, height: i32, x: i32, y: i32, color: u32)
    requires
        0 <= width,
        0 <= height,
        old(buffer)@.len() == width as int * height as int * 4,
    ensures
        final(buffer)@ == draw_pixel_spec(old(buffer)@, width as int, height as int, x as int, y as int, color),
        final(buffer)@.len() == old(buffer)@.len(),
        color_alpha(color) == 0 ==> final(buffer)@ == old(buffer)@,
        !(0 <= x < width && 0 <= y < height) ==> final(buffer)@ == old(buffer)@,
        (0 <= x < width && 0 <= y < height && color_alpha(color) == 255) ==> {
            let off = (y as int * width as int + x as int) * 4;
            &&& final(buffer)@[off] == color_red(color) as u8
            &&& final(buffer)@[off + 1] == color_green(color) as u8
            &&& final(buffer)@[off + 2] == color_blue(color) as u8
            &&& final(buffer)@[off + 3] == color_alpha(color) as u8
            &&& forall|i: int|
                0 <= i < final(buffer)@.len() && !(off <= i < off + 4) ==> final(buffer)@[i] == old(buffer)@[i]
        },
{
    let alpha: u32 = (color >> 24) & 0xFF;
    if alpha == 0 {
        // Do not draw if the source is fully transparent.
        return ;
    }
    if y < 0 || y >= height {
        // Silently clip if y is out of bounds.
        return ;
    }
    if x < 0 || x >= width {
        // Silently clip if x is out of bounds.
        return ;
    }
    proof {
        assert(0 <= y as int * width as int && (y as int * width as int + x as int) * 4 + 3 < width
            as int * height as int * 4) by (nonlinear_arith)
            requires
                0 <= x < width,
                0 <= y < height,
        ;
    }
    proof {
        axiom_spec_len(buffer);
    }
    let offset: usize = (y as usize * width as usize + x as usize) * 4;
    let mut current: u32 = buffer[offset + 2] as u32 | ((buffer[offset + 1] as u32) << 8) | ((
    buffer[offset] as u32) << 16) | ((buffer[offset + 3] as u32) << 24);
    assert(current == packed_at(buffer@, offset as int));
    let ghost cur0: u32 = current;
    if alpha >= 255 || current == 0 {
        // Source is fully opaque or the destination is empty: replace.
        current = color;
    } else {
        let n_alpha: u32 = 255 - alpha;
        assert(n_alpha * (current & 0x00FF00FF) + alpha * (color & 0x00FF00FF) < 0x100000000) by (bit_vector)
            requires
                n_alpha == 255 - alpha,
                alpha < 255,
        ;
        let rb_full: u32 = (n_alpha * (current & 0x00FF00FF)) + (alpha * (color & 0x00FF00FF));
        assert(rb_full >> 8 == rb_full / 256) by (bit_vector);
        let rb: u32 = rb_full >> 8;
        let marker: u32 = 0x01000000 | ((color & 0x0000FF00) >> 8);
        assert(marker == 0x01000000 + ((color >> 8) & 0xFF) && marker <= 0x010000FF) by (bit_vector)
            requires
                marker == 0x01000000 | ((color & 0x0000FF00) >> 8),
        ;
        assert(n_alpha * ((current & 0xFF00FF00) >> 8) + alpha * marker < 0x100000000) by (bit_vector)
            requires
                n_alpha == 255 - alpha,
                alpha < 255,
                marker <= 0x010000FF,
        ;
        let ag: u32 = (n_alpha * ((current & 0xFF00FF00) >> 8)) + (alpha * marker);
        proof {
            let a = alpha as int;
            assert(rb == blend_rb(cur0, color, a));
            assert(ag == blend_ag(cur0, color, a));
        }
        current = (rb & 0x00FF00FF) | (ag & 0xFF00FF00);
        assert(current == blend(cur0, color));
    }
    let ghost pre = buffer@;
    buffer.set(offset + 2, current as u8);
    buffer.set(offset + 1, (current >> 8) as u8);
    buffer.set(offset, (current >> 16) as u8);
    buffer.set(offset + 3, (current >> 24) as u8);
    proof {
        assert(buffer@ =~= draw_pixel_spec(pre, width as int, height as int, x as int, y as int, color));
        if alpha == 255 {
            assert(current as u8 == color_blue(color) as u8 && (current >> 8) as u8 == color_green(
                color,
            ) as u8 && (current >> 16) as u8 == color_red(color) as u8 && (current >> 24) as u8
                == color_alpha(color) as u8) by (bit_vector)
                requires
                    current == color,
                    alpha == (color >> 24) & 0xFF,
                    alpha == 255,
            ;
        }
    }
}


/// The buffer after compositing `color` at the `cols` pixels
/// (xbase, yy) .. (xbase + cols - 1, yy), left to right.
pub open spec fn draw_row_spec(
    buf: Seq<u8>,
    width: int,
    height: int,
    xbase: int,
    yy: int,
    cols: int,
    color: u32,
) -> Seq<u8>
    decreases cols,
{
    if cols <= 0 {
        buf
    } else {
        draw_pixel_spec(
            draw_row_spec(buf, width, height, xbase, yy, cols - 1, color),
            width,
            height,
            xbase + (cols - 1),
            yy,
            color,
        )
    }
}

/// The buffer after compositing `color` over the whole cols x rows span whose
/// top-left pixel is (xbase, ybase), row by row, left to right in each row.
pub open spec fn draw_span_spec(
    buf: Seq<u8>,
    width: int,
    height: int,
    xbase: int,
    ybase: int,
    cols: int,
    rows: int,
    color: u32,
) -> Seq<u8>
    decreases rows,
{
    if rows <= 0 {
        buf
    } else {
        draw_row_spec(
            draw_span_spec(buf, width, height, xbase, ybase, cols, rows - 1, color),
            width,
            height,
            xbase,
            ybase + (rows - 1),
            cols,
            color,
        )
    }
}

/// Composites a glyph span of `gw` x `gh` covered pixels whose glyph position
/// is (x, y), shifted by the alignment offset (off_x, off_y), into the pixel
/// buffer.  Pixels falling outside the buffer are silently clipped, exactly as
/// `draw_pixel_spec` states per pixel.
#[verifier::loop_isolation(false)]
pub fn draw_span(
    pixels: &mut Vec<u8>,
    width: i32,
    height: i32,
    x: i32,
    y: i32,
    gw: u32,
    gh: u32,
    off_x: i32,
    off_y: i32,
    color: u32,
)
    requires
        0 <= width,
        0 <= height,
        old(pixels)@.len() == width as int * height as int * 4,
    ensures
        final(pixels)@ == draw_span_spec(
            old(pixels)@,
            width as int,
            height as int,
            x as int + off_x as int,
            y as int + off_y as int,
            gw as int,
            gh as int,
            color,
        ),
        final(pixels)@.len() == old(pixels)@.len(),
{
    let ghost buf0 = pixels@;
    let ghost xb = x as int + off_x as int;
    let ghost yb = y as int + off_y as int;
    let mut r: u32 = 0;
    while r < gh
        invariant
            r <= gh,
            0 <= width,
            0 <= height,
            buf0.len() == width as int * height as int * 4,
            pixels@ == draw_span_spec(buf0, width as int, height as int, xb, yb, gw as int, r as int, color),
            pixels@.len() == buf0.len(),
        decreases gh - r,
    {
        let ghost rowbase = pixels@;
        let mut c: u32 = 0;
        while c < gw
            invariant
                c <= gw,
                r < gh,
                0 <= width,
                0 <= height,
                buf0.len() == width as int * height as int * 4,
                rowbase == draw_span_spec(buf0, width as int, height as int, xb, yb, gw as int, r as int, color),
                pixels@ == draw_row_spec(rowbase, width as int, height as int, xb, yb + r as int, c as int, color),
                pixels@.len() == buf0.len(),
            decreases gw - c,
        {
            let xx: i64 = x as i64 + c as i64 + off_x as i64;
            let yy: i64 = y as i64 + r as i64 + off_y as i64;
            let ghost pre = pixels@;
            proof {
                assert(xx as int == xb + c as int);
                assert(yy as int == yb + r as int);
            }
            if 0 <= xx && xx < width as i64 && 0 <= yy && yy < height as i64 {
                draw_pixel(pixels, width, height, xx as i32, yy as i32, color);
            } else {
                proof {
                    // Out of bounds: compositing there is a no-op.
                    assert((xx as int) < 0 || xx as int >= width as int || (yy as int) < 0 || yy
                        as int >= height as int);
                    assert(draw_pixel_spec(pre, width as int, height as int, xb + c as int, yb
                        + r as int, color) == pre);
                }
            }
            proof {
                assert(pixels@ == draw_row_spec(rowbase, width as int, height as int, xb, yb
                    + r as int, c as int + 1, color));
            }
            c = c + 1;
        }
        proof {
            assert(pixels@ == draw_span_spec(buf0, width as int, height as int, xb, yb, gw as int,
                r as int + 1, color));
        }
        r = r + 1;
    }
}

} // verus!
