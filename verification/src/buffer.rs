//! The text buffer: lines of text, font metrics, pixel size, the redraw flag
//! and the lazily recomputed shaped-layout cache.

use vstd::prelude::*;
use crate::text::{split_lines, join_lines, line_views, split_text, join_text, lemma_split_lines_wf, str_chars};
use crate::shaping::{ct_set_text, ct_shape, ct_line_widths, string_from_chars};

verus! {

/// Largest accepted pixel dimension or metric, in device pixels (the usual
/// texture size cap).  Keeps every size computation (offsets, visible lines,
/// pixel buffer length) within machine integer ranges on any target.
pub const MAX_DIM: u32 = 16384;

/// A value clamped into [1, MAX_DIM].
pub open spec fn clamp_dim_spec(v: int) -> int {
    if v < 1 {
        1
    } else if v > MAX_DIM as int {
        MAX_DIM as int
    } else {
        v
    }
}

/// Clamps a dimension into [1, MAX_DIM].
pub fn clamp_dim(v: u32) -> (r: u32)
    ensures
        r == clamp_dim_spec(v as int),
{
    if v < 1 {
        1
    } else if v > MAX_DIM {
        MAX_DIM
    } else {
        v
    }
}

/// The derived shaped-layout cache: the outside shaping buffer holding the
/// laid-out glyph runs, and the pixel width of each laid-out visual line.
pub struct ShapeCache {
    /// Width in whole pixels of each laid-out visual line.
    pub widths: Vec<i32>,
    /// The shaping buffer the widths came from; the rasterizer draws from it.
    pub handle: cosmic_text::Buffer,
}

/// An ordered sequence of text lines plus font metrics (in device pixels) and
/// a pixel size, a redraw flag, and the lazily recomputed shape cache.
///
/// Invariants (`wf`): there is always at least one line; no line contains a
/// newline; metrics and sizes lie in [1, MAX_DIM].
pub struct TextBuffer {
    /// The lines of text, in order.  Never empty.
    pub lines: Vec<Vec<char>>,
    /// Font size in device pixels.
    pub font_size: u32,
    /// Line height in device pixels.
    pub line_height: u32,
    /// Pixel width of the rendered surface.
    pub width: u32,
    /// Pixel height of the rendered surface.
    pub height: u32,
    /// True when visible content or geometry changed since the last
    /// rasterization pass.
    pub redraw: bool,
    /// The shaped-layout cache; `None` when stale relative to the current
    /// text, metrics and size.
    pub shaped: Option<ShapeCache>,
}

impl TextBuffer {
    /// Well-formedness: at least one line, no newline inside a line, metrics
    /// and sizes within [1, MAX_DIM].
    pub open spec fn wf(self) -> bool {
        &&& self.lines@.len() >= 1
        &&& forall|k: int, j: int|
            0 <= k < self.lines@.len() && 0 <= j < self.lines@[k]@.len() ==> self.lines@[k]@[j]
                != '\n'
        &&& 1 <= self.font_size <= MAX_DIM
        &&& 1 <= self.line_height <= MAX_DIM
        &&& 1 <= self.width <= MAX_DIM
        &&& 1 <= self.height <= MAX_DIM
    }

    /// The lines as character sequences.
    pub open spec fn lines_view(self) -> Seq<Seq<char>> {
        line_views(self.lines@)
    }

    /// A new buffer holding one empty line, with the given metrics (clamped
    /// into range), a 1x1 pixel size, no pending redraw and no shape cache.
    pub fn new(font_size: u32, line_height: u32) -> (b: TextBuffer)
        ensures
            b.wf(),
            b.lines_view() =~= seq![Seq::<char>::empty()],
            b.font_size == clamp_dim_spec(font_size as int),
            b.line_height == clamp_dim_spec(line_height as int),
            b.width == 1,
            b.height == 1,
            b.redraw == false,
            (b.shaped is None),
    {
        let mut lines: Vec<Vec<char>> = Vec::new();
        lines.push(Vec::new());
        let b = TextBuffer {
            lines,
            font_size: clamp_dim(font_size),
            line_height: clamp_dim(line_height),
            width: 1,
            height: 1,
            redraw: false,
            shaped: None,
        };
        proof {
            assert(b.lines_view() =~= seq![Seq::<char>::empty()]);
        }
        b
    }

    /// Replaces all lines with the lines of `text`, invalidates the shape
    /// cache and forces a redraw.  Metrics and size are untouched.
    pub fn set_text(&mut self, text: &str)
        requires
            old(self).wf(),
        ensures
            final(self).wf(),
            final(self).lines_view() == split_lines(text@),
            final(self).font_size == old(self).font_size,
            final(self).line_height == old(self).line_height,
            final(self).width == old(self).width,
            final(self).height == old(self).height,
            final(self).redraw == true,
            (final(self).shaped is None),
    {
        let chars = str_chars(text);
        let lines = split_text(&chars);
        proof {
            lemma_split_lines_wf(text@);
        }
        self.lines = lines;
        self.redraw = true;
        self.shaped = None;
        proof {
            assert forall|k: int, j: int|
                0 <= k < self.lines@.len() && 0 <= j < self.lines@[k]@.len() implies self.lines@[k]@[j]
                != '\n' by {
                assert(self.lines@[k]@ == split_lines(text@)[k]);
            }
        }
    }

    /// The buffer's content as one string: the lines joined by newlines.
    pub fn get_text(&self) -> (r: String)
        requires
            self.wf(),
        ensures
            r@ == join_lines(self.lines_view()),
    {
        let chars = join_text(&self.lines);
        string_from_chars(&chars)
    }

    /// Updates the pixel size (each dimension clamped into [1, MAX_DIM]).
    /// A call that leaves both dimensions unchanged is a no-op; otherwise the
    /// shape cache is invalidated and a redraw forced.
    pub fn set_size(&mut self, width: u32, height: u32)
        requires
            old(self).wf(),
        ensures
            final(self).wf(),
            final(self).width == clamp_dim_spec(width as int),
            final(self).height == clamp_dim_spec(height as int),
            final(self).lines == old(self).lines,
            final(self).font_size == old(self).font_size,
            final(self).line_height == old(self).line_height,
            clamp_dim_spec(width as int) == old(self).width && clamp_dim_spec(height as int) == old(
                self,
            ).height ==> *final(self) == *old(self),
            !(clamp_dim_spec(width as int) == old(self).width && clamp_dim_spec(height as int)
                == old(self).height) ==> final(self).redraw == true && (final(self).shaped is None),
    {
        let w = clamp_dim(width);
        let h = clamp_dim(height);
        if w == self.width && h == self.height {
            return ;
        }
        self.width = w;
        self.height = h;
        self.redraw = true;
        self.shaped = None;
    }

    /// Updates the font metrics (each clamped into [1, MAX_DIM]).  A call
    /// that leaves both metrics unchanged is a no-op; otherwise the shape
    /// cache is invalidated and a redraw forced.
    pub fn set_metrics(&mut self, font_size: u32, line_height: u32)
        requires
            old(self).wf(),
        ensures
            final(self).wf(),
            final(self).font_size == clamp_dim_spec(font_size as int),
            final(self).line_height == clamp_dim_spec(line_height as int),
            final(self).lines == old(self).lines,
            final(self).width == old(self).width,
            final(self).height == old(self).height,
            clamp_dim_spec(font_size as int) == old(self).font_size && clamp_dim_spec(
                line_height as int,
            ) == old(self).line_height ==> *final(self) == *old(self),
            !(clamp_dim_spec(font_size as int) == old(self).font_size && clamp_dim_spec(
                line_height as int,
            ) == old(self).line_height) ==> final(self).redraw == true && (final(self).shaped is None),
    {
        let f = clamp_dim(font_size);
        let l = clamp_dim(line_height);
        if f == self.font_size && l == self.line_height {
            return ;
        }
        self.font_size = f;
        self.line_height = l;
        self.redraw = true;
        self.shaped = None;
    }

    /// True when a redraw is pending.
    pub fn redraw(&self) -> (r: bool)
        ensures
            r == self.redraw,
    {
        self.redraw
    }

    /// Sets or clears the redraw flag.
    pub fn set_redraw(&mut self, redraw: bool)
        ensures
            *final(self) == (TextBuffer { redraw, ..*old(self) }),
    {
        self.redraw = redraw;
    }

    /// How many lines fit in the current pixel height at the current line
    /// height.
    pub fn visible_lines(&self) -> (r: i32)
        requires
            self.wf(),
        ensures
            r == self.height as int / self.line_height as int,
    {
        (self.height / self.line_height) as i32
    }

    /// True when the shape cache is stale and the next `shape_as_needed`
    /// will recompute it.
    pub fn needs_reshape(&self) -> (r: bool)
        ensures
            r == (self.shaped is None),
    {
        self.shaped.is_none()
    }

    /// Recomputes the shaped-layout cache only if it is stale: shapes the
    /// buffer's current text through the outside engine using `fresh`, a
    /// shaping buffer the caller constructed at this buffer's current metrics
    /// and size.  When the cache is already valid the buffer is left exactly
    /// as it was — reshaping is idempotent — and in every case the lines,
    /// metrics, size and redraw flag are untouched.
    pub fn shape_as_needed(&mut self, fs: &mut cosmic_text::FontSystem, fresh: cosmic_text::Buffer)
        requires
            old(self).wf(),
        ensures
            final(self).wf(),
            old(self).shaped is Some ==> *final(self) == *old(self),
            (final(self).shaped is Some),
            final(self).lines == old(self).lines,
            final(self).font_size == old(self).font_size,
            final(self).line_height == old(self).line_height,
            final(self).width == old(self).width,
            final(self).height == old(self).height,
            final(self).redraw == old(self).redraw,
    {
        if !self.needs_reshape() {
            return ;
        }
        let text = self.get_text();
        let mut ct = fresh;
        ct_set_text(fs, &mut ct, text.as_str());
        ct_shape(fs, &mut ct);
        let widths = ct_line_widths(&ct);
        self.shaped = Some(ShapeCache { widths, handle: ct });
    }
}


/// The scaled dimension base * num / den, clamped into [1, MAX_DIM]: how a
/// base metric or layout size maps to device pixels at scale factor num/den.
pub open spec fn scale_dim_spec(base: int, num: int, den: int) -> int {
    clamp_dim_spec(base * num / den)
}

/// Scales `base` by the rational display factor `num / den` and clamps the
/// result into [1, MAX_DIM].
pub fn scale_dim(base: u32, num: u32, den: u32) -> (r: u32)
    requires
        1 <= den,
    ensures
        r == scale_dim_spec(base as int, num as int, den as int),
{
    proof {
        assert(0 <= (base as int) * (num as int) && (base as int) * (num as int)
            < 0x1_0000_0000_0000_0000) by (nonlinear_arith)
            requires
                0 <= (base as int) && (base as int) < 0x1_0000_0000,
                0 <= (num as int) && (num as int) < 0x1_0000_0000,
        ;
        assert(0 <= (base as int) * (num as int) / (den as int) && (base as int) * (num as int) / (
        den as int) <= (base as int) * (num as int)) by (nonlinear_arith)
            requires
                1 <= (den as int),
                0 <= (base as int) * (num as int),
        ;
    }
    let p: u64 = (base as u64) * (num as u64);
    let q: u64 = p / (den as u64);
    if q < 1 {
        1
    } else if q > MAX_DIM as u64 {
        MAX_DIM
    } else {
        q as u32
    }
}

} // verus!
