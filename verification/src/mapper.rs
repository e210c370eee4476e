//! The coordinate mapper: alignment offsets for centered text and the
//! translation of a window pointer position into buffer-local pixels.

use vstd::prelude::*;
use crate::buffer::{TextBuffer, MAX_DIM};

verus! {

/// The smaller of two integers.
pub open spec fn min_int(a: int, b: int) -> int {
    if a < b {
        a
    } else {
        b
    }
}

/// The widest laid-out line among the first `i` cached widths, but never less
/// than zero.
pub open spec fn max_width_pre(ws: Seq<i32>, i: int) -> int
    decreases i,
{
    if i <= 0 {
        0
    } else {
        let m = max_width_pre(ws, i - 1);
        if ws[i - 1] > m {
            ws[i - 1] as int
        } else {
            m
        }
    }
}

/// The widest line's width never drops below zero nor above i32::MAX.
pub proof fn lemma_max_width_bounds(ws: Seq<i32>, i: int)
    ensures
        0 <= max_width_pre(ws, i) <= 0x7FFF_FFFF,
    decreases i,
{
    if i > 0 {
        lemma_max_width_bounds(ws, i - 1);
    }
}

impl TextBuffer {
    /// The widest laid-out line's pixel width, by the shape cache.
    pub open spec fn max_line_width_spec(self) -> int {
        match self.shaped {
            Option::None => 0,
            Option::Some(cache) => max_width_pre(cache.widths@, cache.widths@.len() as int),
        }
    }

    /// Width in pixels of the widest laid-out line, or 0 while the shape
    /// cache is stale (an unshaped line contributes no width).
    pub fn max_line_width(&self) -> (r: i32)
        ensures
            r == self.max_line_width_spec(),
            0 <= r,
    {
        proof {
            if self.shaped is Some {
                lemma_max_width_bounds(self.shaped->Some_0.widths@, self.shaped->Some_0.widths@.len() as int);
            }
        }
        match &self.shaped {
            Option::None => 0,
            Option::Some(cache) => {
                let n: usize = cache.widths.len();
                let mut acc: i32 = 0;
                let mut k: usize = 0;
                while k < n
                    invariant
                        k <= n,
                        n == cache.widths@.len(),
                        acc == max_width_pre(cache.widths@, k as int),
                        0 <= acc,
                    decreases n - k,
                {
                    proof {
                        lemma_max_width_bounds(cache.widths@, k as int + 1);
                    }
                    if cache.widths[k] > acc {
                        acc = cache.widths[k];
                    }
                    k = k + 1;
                }
                acc
            },
        }
    }
}

/// The vertical centering offset: half of what remains of the surface height
/// after the visible text block — `line_height` times the smaller of the
/// number of lines that fit and the number of lines there are.
pub open spec fn y_offset_spec(height: int, line_height: int, count: int) -> int {
    (height - line_height * min_int(height / line_height, count)) / 2
}

/// The horizontal centering offset: half of what remains of the surface width
/// after the widest shaped line, the width clamped so the offset is never
/// negative.
pub open spec fn x_offset_spec(width: int, max_line_width: int) -> int {
    (width - min_int(max_line_width, width)) / 2
}

/// Computes the vertical centering offset for a surface `height` pixels tall
/// holding `count` lines of `line_height` pixels each.
pub fn y_offset_of(height: u32, line_height: u32, count: usize) -> (r: i32)
    requires
        1 <= height <= MAX_DIM,
        1 <= line_height <= MAX_DIM,
    ensures
        r == y_offset_spec(height as int, line_height as int, count as int),
        0 <= r,
{
    let vis: u32 = height / line_height;
    let cnt: u32 = if count < vis as usize {
        count as u32
    } else {
        vis
    };
    proof {
        assert(line_height as int * cnt as int <= line_height as int * vis as int) by (nonlinear_arith)
            requires
                cnt <= vis,
                line_height >= 1,
        ;
        assert(line_height as int * (height as int / line_height as int) <= height as int) by (nonlinear_arith)
            requires
                line_height >= 1,
                height >= 1,
        ;
    }
    let text_height: u32 = line_height * cnt;
    ((height - text_height) / 2) as i32
}

/// Computes the horizontal centering offset for a surface `width` pixels wide
/// whose widest shaped line is `max_line_width` pixels.
pub fn x_offset_of(width: u32, max_line_width: i32) -> (r: i32)
    requires
        1 <= width <= MAX_DIM,
        0 <= max_line_width,
    ensures
        r == x_offset_spec(width as int, max_line_width as int),
        0 <= r,
{
    let wi: i32 = width as i32;
    let m: i32 = if max_line_width < wi {
        max_line_width
    } else {
        wi
    };
    (wi - m) / 2
}

/// The vertical centering offset of a buffer's current text block.
pub fn get_y_offset(buffer: &TextBuffer) -> (r: i32)
    requires
        buffer.wf(),
    ensures
        r == y_offset_spec(buffer.height as int, buffer.line_height as int, buffer.lines@.len() as int),
        0 <= r,
{
    y_offset_of(buffer.height, buffer.line_height, buffer.lines.len())
}

/// The horizontal centering offset of a buffer's widest shaped line.
pub fn get_x_offset(buffer: &TextBuffer) -> (r: i32)
    requires
        buffer.wf(),
    ensures
        r == x_offset_spec(buffer.width as int, buffer.max_line_width_spec()),
        0 <= r,
{
    let m = buffer.max_line_width();
    x_offset_of(buffer.width, m)
}

/// Where a window pointer position lands inside a surface: `Some` of the
/// surface-local position when the pointer lies strictly inside the surface's
/// bounding rectangle (centered at (center_x, center_y) in window
/// coordinates, `size_x` by `size_y`, with y measured from the window's
/// bottom), `None` otherwise — positions outside are rejected, not clamped.
pub open spec fn node_cursor_pos_spec(
    window_height: int,
    center_x: int,
    center_y: int,
    size_x: int,
    size_y: int,
    px: int,
    py: int,
) -> Option<(int, int)> {
    let x_min = center_x - size_x / 2;
    let y_min = window_height - center_y - size_y / 2;
    let x_max = x_min + size_x;
    let y_max = y_min + size_y;
    if x_min < px && px < x_max && y_min < py && py < y_max {
        Option::Some((px - x_min, y_max - py))
    } else {
        Option::None
    }
}

/// Hit-tests the window pointer position (if there is one) against a
/// surface's bounding rectangle and translates a hit into surface-local
/// pixels, as `node_cursor_pos_spec` states.
pub fn get_node_cursor_pos(
    window_height: i32,
    center_x: i32,
    center_y: i32,
    size_x: i32,
    size_y: i32,
    pointer: Option<(i32, i32)>,
) -> (r: Option<(i32, i32)>)
    requires
        0 <= size_x,
        0 <= size_y,
    ensures
        r matches Option::Some(p) ==> pointer matches Option::Some(q) && node_cursor_pos_spec(
            window_height as int,
            center_x as int,
            center_y as int,
            size_x as int,
            size_y as int,
            q.0 as int,
            q.1 as int,
        ) == Option::Some((p.0 as int, p.1 as int)),
        pointer matches Option::Some(q) ==> ((r is None) ==> (node_cursor_pos_spec(
            window_height as int,
            center_x as int,
            center_y as int,
            size_x as int,
            size_y as int,
            q.0 as int,
            q.1 as int,
        ) is None)),
        pointer is None ==> r is None,
{
    match pointer {
        Option::None => Option::None,
        Option::Some((px, py)) => {
            let x_min: i64 = center_x as i64 - (size_x / 2) as i64;
            let y_min: i64 = window_height as i64 - center_y as i64 - (size_y / 2) as i64;
            let x_max: i64 = x_min + size_x as i64;
            let y_max: i64 = y_min + size_y as i64;
            if x_min < px as i64 && (px as i64) < x_max && y_min < py as i64 && (py as i64)
                < y_max {
                Option::Some(((px as i64 - x_min) as i32, (y_max - py as i64) as i32))
            } else {
                Option::None
            }
        },
    }
}

/// A 64-bit value saturated into the i32 range.
pub open spec fn sat_i32(v: int) -> int {
    if v < -0x8000_0000 {
        -0x8000_0000
    } else if v > 0x7FFF_FFFF {
        0x7FFF_FFFF
    } else {
        v
    }
}

/// Scales a surface-local pointer coordinate by the display scale factor
/// `num / den` and shifts it by the alignment offset, saturating into the
/// i32 range: the buffer-local pixel position the shaped layout is
/// hit-tested at.
pub fn buffer_local_coord(v: i32, num: u32, den: u32, offset: i32) -> (r: i32)
    requires
        0 <= v,
        1 <= den,
    ensures
        r == sat_i32(v as int * num as int / den as int - offset as int),
{
    proof {
        assert(0 <= (v as int) * (num as int) && (v as int) * (num as int)
            < 0x8000_0000_0000_0000) by (nonlinear_arith)
            requires
                0 <= (v as int) && (v as int) <= 0x7FFF_FFFF,
                0 <= (num as int) && (num as int) < 0x1_0000_0000,
        ;
        assert(0 <= (v as int) * (num as int) / (den as int) && (v as int) * (num as int) / (
        den as int) <= (v as int) * (num as int)) by (nonlinear_arith)
            requires
                1 <= (den as int),
                0 <= (v as int) * (num as int),
        ;
    }
    let scaled: i64 = (v as i64) * (num as i64) / (den as i64);
    let shifted: i128 = scaled as i128 - offset as i128;
    if shifted < -0x8000_0000i128 {
        -0x8000_0000i32
    } else if shifted > 0x7FFF_FFFFi128 {
        0x7FFF_FFFFi32
    } else {
        shifted as i32
    }
}

} // verus!
