//! The editor: a text buffer plus a cursor, an optional selection and the
//! continuous-delete mode, with the edit operations the input dispatcher
//! applies.
//!
//! Every operation's effect is stated exactly over `EditorModel`, the ghost
//! view of an editor: the line contents, the cursor, the selection, the
//! continuous-delete flag, the redraw flag and whether the shape cache is
//! still valid.

use vstd::prelude::*;
use vstd::std_specs::vec::axiom_spec_len;
use crate::buffer::{TextBuffer, MAX_DIM, clamp_dim, clamp_dim_spec, scale_dim, scale_dim_spec};
use crate::text::{split_lines, join_lines};

verus! {

/// Where the text block sits in the surface.
#[derive(Clone, Copy, Debug, PartialEq, Eq)]
pub enum CosmicTextPos {
    Center,
    TopLeft,
}

/// Which side of a line-wrap boundary a cursor position belongs to.
#[derive(Clone, Copy, Debug, PartialEq, Eq)]
pub enum Affinity {
    Before,
    After,
}

/// A position within the buffer: line index, character index within that
/// line, and the wrap affinity.
#[derive(Clone, Copy, Debug, PartialEq, Eq)]
pub struct Cursor {
    pub line: usize,
    pub index: usize,
    pub affinity: Affinity,
}

/// The ghost view of a cursor.
pub ghost struct CursorModel {
    pub line: int,
    pub index: int,
    pub after: bool,
}

/// The ghost view of an editor: everything the edit operations read or write.
pub ghost struct EditorModel {
    pub lines: Seq<Seq<char>>,
    pub cursor: CursorModel,
    pub selection: Option<CursorModel>,
    pub is_deleting: bool,
    pub redraw: bool,
    pub shaped: bool,
}

/// An editor: one buffer, one cursor, an optional selection marking the other
/// end of a highlighted range, and the transient continuous-delete mode.
pub struct Editor {
    pub buffer: TextBuffer,
    pub cursor: Cursor,
    pub selection: Option<Cursor>,
    pub is_deleting: bool,
}

impl Cursor {
    /// The cursor's ghost view.
    pub open spec fn view(self) -> CursorModel {
        CursorModel { line: self.line as int, index: self.index as int, after: self.affinity is After }
    }
}

/// A cursor position lies within `lines`.
pub open spec fn cursor_in(c: CursorModel, lines: Seq<Seq<char>>) -> bool {
    0 <= c.line < lines.len() && 0 <= c.index <= lines[c.line].len()
}

/// A model is well formed: at least one newline-free line, and the cursor and
/// selection lie within the lines.
pub open spec fn model_wf(m: EditorModel) -> bool {
    &&& m.lines.len() >= 1
    &&& forall|k: int, j: int|
        0 <= k < m.lines.len() && 0 <= j < m.lines[k].len() ==> m.lines[k][j] != '\n'
    &&& cursor_in(m.cursor, m.lines)
    &&& match m.selection {
        Option::None => true,
        Option::Some(c) => cursor_in(c, m.lines),
    }
}

impl Editor {
    /// The editor's ghost view.
    pub open spec fn view(self) -> EditorModel {
        EditorModel {
            lines: self.buffer.lines_view(),
            cursor: self.cursor.view(),
            selection: match self.selection {
                Option::None => Option::None,
                Option::Some(c) => Option::Some(c.view()),
            },
            is_deleting: self.is_deleting,
            redraw: self.buffer.redraw,
            shaped: self.buffer.shaped is Some,
        }
    }

    /// Well-formedness: the buffer is well formed and cursor and selection
    /// lie within its lines.
    pub open spec fn wf(self) -> bool {
        self.buffer.wf() && model_wf(self.view())
    }
}

/// The cursor after a one-position move to the left: back one character, or
/// to the previous line's end at a line start, or unmoved at the buffer
/// start.
pub open spec fn spec_move_left(m: EditorModel) -> EditorModel {
    let c = m.cursor;
    if c.index > 0 {
        EditorModel { cursor: CursorModel { line: c.line, index: c.index - 1, after: true }, ..m }
    } else if c.line > 0 {
        EditorModel {
            cursor: CursorModel { line: c.line - 1, index: m.lines[c.line - 1].len() as int, after: true },
            ..m
        }
    } else {
        m
    }
}

/// The cursor after a one-position move to the right: forward one character,
/// or to the next line's start at a line end, or unmoved at the buffer end.
pub open spec fn spec_move_right(m: EditorModel) -> EditorModel {
    let c = m.cursor;
    if c.index < m.lines[c.line].len() {
        EditorModel { cursor: CursorModel { line: c.line, index: c.index + 1, after: true }, ..m }
    } else if c.line + 1 < m.lines.len() {
        EditorModel { cursor: CursorModel { line: c.line + 1, index: 0, after: true }, ..m }
    } else {
        m
    }
}

/// The cursor after a one-row move up: the previous line, at the same
/// character index clamped to that line's length; unmoved on the first line.
pub open spec fn spec_move_up(m: EditorModel) -> EditorModel {
    let c = m.cursor;
    if c.line > 0 {
        let len = m.lines[c.line - 1].len() as int;
        EditorModel {
            cursor: CursorModel {
                line: c.line - 1,
                index: if c.index < len {
                    c.index
                } else {
                    len
                },
                after: true,
            },
            ..m
        }
    } else {
        m
    }
}

/// The cursor after a one-row move down: the next line, at the same character
/// index clamped to that line's length; unmoved on the last line.
pub open spec fn spec_move_down(m: EditorModel) -> EditorModel {
    let c = m.cursor;
    if c.line + 1 < m.lines.len() {
        let len = m.lines[c.line + 1].len() as int;
        EditorModel {
            cursor: CursorModel {
                line: c.line + 1,
                index: if c.index < len {
                    c.index
                } else {
                    len
                },
                after: true,
            },
            ..m
        }
    } else {
        m
    }
}

/// The cursor at the buffer's very end: last line, after its last character.
pub open spec fn spec_buffer_end(m: EditorModel) -> EditorModel {
    EditorModel {
        cursor: CursorModel {
            line: m.lines.len() - 1,
            index: m.lines[m.lines.len() - 1].len() as int,
            after: true,
        },
        ..m
    }
}

/// The editor after inserting character `ch` at the cursor: a newline splits
/// the cursor's line at the cursor, any other character is inserted before
/// the cursor.  Either way the buffer changed: the selection is collapsed
/// (its highlighted range would go stale), a redraw forced, the shape cache
/// dropped.
pub open spec fn spec_insert_char(m: EditorModel, ch: char) -> EditorModel {
    let c = m.cursor;
    let line = m.lines[c.line];
    if ch == '\n' {
        EditorModel {
            lines: m.lines.take(c.line).add(seq![line.take(c.index)]).add(
                seq![line.skip(c.index)],
            ).add(m.lines.skip(c.line + 1)),
            cursor: CursorModel { line: c.line + 1, index: 0, after: true },
            selection: Option::None,
            redraw: true,
            shaped: false,
            ..m
        }
    } else {
        EditorModel {
            lines: m.lines.update(c.line, line.insert(c.index, ch)),
            cursor: CursorModel { line: c.line, index: c.index + 1, after: true },
            selection: Option::None,
            redraw: true,
            shaped: false,
            ..m
        }
    }
}

/// The editor after deleting the character before the cursor: removes it, or
/// joins the cursor's line onto the previous line at a line start, or does
/// nothing at the buffer start.
pub open spec fn spec_delete_before(m: EditorModel) -> EditorModel {
    let c = m.cursor;
    if c.index > 0 {
        EditorModel {
            lines: m.lines.update(c.line, m.lines[c.line].remove(c.index - 1)),
            cursor: CursorModel { line: c.line, index: c.index - 1, after: true },
            selection: Option::None,
            redraw: true,
            shaped: false,
            ..m
        }
    } else if c.line > 0 {
        EditorModel {
            lines: m.lines.update(c.line - 1, m.lines[c.line - 1].add(m.lines[c.line])).remove(
                c.line,
            ),
            cursor: CursorModel {
                line: c.line - 1,
                index: m.lines[c.line - 1].len() as int,
                after: true,
            },
            selection: Option::None,
            redraw: true,
            shaped: false,
            ..m
        }
    } else {
        m
    }
}

/// The editor after deleting the character after the cursor: removes it, or
/// joins the next line onto the cursor's line at a line end, or does nothing
/// at the buffer end.
pub open spec fn spec_delete_after(m: EditorModel) -> EditorModel {
    let c = m.cursor;
    if c.index < m.lines[c.line].len() {
        EditorModel {
            lines: m.lines.update(c.line, m.lines[c.line].remove(c.index)),
            selection: Option::None,
            redraw: true,
            shaped: false,
            ..m
        }
    } else if c.line + 1 < m.lines.len() {
        EditorModel {
            lines: m.lines.update(c.line, m.lines[c.line].add(m.lines[c.line + 1])).remove(
                c.line + 1,
            ),
            selection: Option::None,
            redraw: true,
            shaped: false,
            ..m
        }
    } else {
        m
    }
}

/// The editor after an Escape: the selection cleared, the cursor unmoved.
pub open spec fn spec_escape(m: EditorModel) -> EditorModel {
    EditorModel { selection: Option::None, ..m }
}

/// The editor after select-all: the cursor at the buffer end and the
/// selection anchored at line 0, index 0, with Before affinity.
pub open spec fn spec_select_all(m: EditorModel) -> EditorModel {
    EditorModel {
        selection: Option::Some(CursorModel { line: 0, index: 0, after: false }),
        ..spec_buffer_end(m)
    }
}

impl Editor {
    /// Moves the cursor one position to the left.
    pub fn move_left(&mut self)
        requires
            old(self).wf(),
        ensures
            final(self).wf(),
            final(self).view() == spec_move_left(old(self).view()),
            final(self).buffer == old(self).buffer,
    {
        if self.cursor.index > 0 {
            self.cursor.index = self.cursor.index - 1;
            self.cursor.affinity = Affinity::After;
        } else if self.cursor.line > 0 {
            self.cursor.line = self.cursor.line - 1;
            self.cursor.index = self.buffer.lines[self.cursor.line].len();
            self.cursor.affinity = Affinity::After;
        }
    }

    /// Moves the cursor one position to the right.
    pub fn move_right(&mut self)
        requires
            old(self).wf(),
        ensures
            final(self).wf(),
            final(self).view() == spec_move_right(old(self).view()),
            final(self).buffer == old(self).buffer,
    {
        proof {
            axiom_spec_len(&self.buffer.lines);
        }
        let len = self.buffer.lines[self.cursor.line].len();
        if self.cursor.index < len {
            self.cursor.index = self.cursor.index + 1;
            self.cursor.affinity = Affinity::After;
        } else if self.cursor.line + 1 < self.buffer.lines.len() {
            self.cursor.line = self.cursor.line + 1;
            self.cursor.index = 0;
            self.cursor.affinity = Affinity::After;
        }
    }

    /// Moves the cursor one row up.
    pub fn move_up(&mut self)
        requires
            old(self).wf(),
        ensures
            final(self).wf(),
            final(self).view() == spec_move_up(old(self).view()),
            final(self).buffer == old(self).buffer,
    {
        if self.cursor.line > 0 {
            self.cursor.line = self.cursor.line - 1;
            let len = self.buffer.lines[self.cursor.line].len();
            if self.cursor.index > len {
                self.cursor.index = len;
            }
            self.cursor.affinity = Affinity::After;
        }
    }

    /// Moves the cursor one row down.
    pub fn move_down(&mut self)
        requires
            old(self).wf(),
        ensures
            final(self).wf(),
            final(self).view() == spec_move_down(old(self).view()),
            final(self).buffer == old(self).buffer,
    {
        proof {
            axiom_spec_len(&self.buffer.lines);
        }
        if self.cursor.line + 1 < self.buffer.lines.len() {
            self.cursor.line = self.cursor.line + 1;
            let len = self.buffer.lines[self.cursor.line].len();
            if self.cursor.index > len {
                self.cursor.index = len;
            }
            self.cursor.affinity = Affinity::After;
        }
    }

    /// Moves the cursor to the buffer's very end.
    pub fn buffer_end(&mut self)
        requires
            old(self).wf(),
        ensures
            final(self).wf(),
            final(self).view() == spec_buffer_end(old(self).view()),
            final(self).buffer == old(self).buffer,
    {
        self.cursor.line = self.buffer.lines.len() - 1;
        self.cursor.index = self.buffer.lines[self.cursor.line].len();
        self.cursor.affinity = Affinity::After;
    }

    /// Inserts `ch` at the cursor (a newline splits the line), forcing a
    /// redraw and dropping the shape cache.
    pub fn insert_char(&mut self, ch: char)
        requires
            old(self).wf(),
        ensures
            final(self).wf(),
            final(self).view() == spec_insert_char(old(self).view(), ch),
            (final(self).buffer.shaped is Some) ==> final(self).buffer.shaped == old(self).buffer.shaped,
            final(self).buffer.font_size == old(self).buffer.font_size,
            final(self).buffer.line_height == old(self).buffer.line_height,
            final(self).buffer.width == old(self).buffer.width,
            final(self).buffer.height == old(self).buffer.height,
    {
        proof {
            axiom_spec_len(&self.buffer.lines);
            axiom_spec_len(&self.buffer.lines@[self.cursor.line as int]);
        }
        let line_i = self.cursor.line;
        let idx = self.cursor.index;
        let mut line = self.buffer.lines.remove(line_i);
        if ch == '\n' {
            let mut rest: Vec<char> = Vec::new();
            let mut j: usize = idx;
            let n = line.len();
            while j < n
                invariant
                    idx <= j <= n,
                    n == line@.len(),
                    rest@ =~= line@.subrange(idx as int, j as int),
                decreases n - j,
            {
                rest.push(line[j]);
                j = j + 1;
            }
            line.truncate(idx);
            self.buffer.lines.insert(line_i, line);
            self.buffer.lines.insert(line_i + 1, rest);
            self.cursor.line = line_i + 1;
            self.cursor.index = 0;
            self.cursor.affinity = Affinity::After;
            self.selection = None;
            self.buffer.redraw = true;
            self.buffer.shaped = None;
            proof {
                let m = old(self).view();
                let c = m.cursor;
                assert(line@ =~= m.lines[c.line].take(c.index));
                assert(rest@ =~= m.lines[c.line].skip(c.index));
                assert(self.view().lines =~= m.lines.take(c.line).add(
                    seq![m.lines[c.line].take(c.index)],
                ).add(seq![m.lines[c.line].skip(c.index)]).add(m.lines.skip(c.line + 1)));
                assert(self.view() == spec_insert_char(m, ch));
            }
        } else {
            line.insert(idx, ch);
            proof {
                axiom_spec_len(&line);
            }
            self.buffer.lines.insert(line_i, line);
            self.cursor.index = idx + 1;
            self.cursor.affinity = Affinity::After;
            self.selection = None;
            self.buffer.redraw = true;
            self.buffer.shaped = None;
            proof {
                let m = old(self).view();
                assert(self.view().lines =~= m.lines.update(
                    m.cursor.line,
                    m.lines[m.cursor.line].insert(m.cursor.index, ch),
                ));
                assert(self.view() == spec_insert_char(m, ch));
            }
        }
    }

    /// Deletes the character before the cursor (joining lines at a line
    /// start), forcing a redraw and dropping the shape cache when anything
    /// was deleted.
    pub fn delete_before(&mut self)
        requires
            old(self).wf(),
        ensures
            final(self).wf(),
            final(self).view() == spec_delete_before(old(self).view()),
            (final(self).buffer.shaped is Some) ==> final(self).buffer.shaped == old(self).buffer.shaped,
            final(self).buffer.font_size == old(self).buffer.font_size,
            final(self).buffer.line_height == old(self).buffer.line_height,
            final(self).buffer.width == old(self).buffer.width,
            final(self).buffer.height == old(self).buffer.height,
    {
        let line_i = self.cursor.line;
        let idx = self.cursor.index;
        if idx > 0 {
            let mut line = self.buffer.lines.remove(line_i);
            line.remove(idx - 1);
            self.buffer.lines.insert(line_i, line);
            self.cursor.index = idx - 1;
            self.cursor.affinity = Affinity::After;
            self.selection = None;
            self.buffer.redraw = true;
            self.buffer.shaped = None;
            proof {
                let m = old(self).view();
                assert(self.view().lines =~= m.lines.update(
                    m.cursor.line,
                    m.lines[m.cursor.line].remove(m.cursor.index - 1),
                ));
                assert(self.view() == spec_delete_before(m));
            }
        } else if line_i > 0 {
            let tail = self.buffer.lines.remove(line_i);
            let mut line = self.buffer.lines.remove(line_i - 1);
            let prev_len = line.len();
            let mut j: usize = 0;
            let n = tail.len();
            while j < n
                invariant
                    j <= n,
                    n == tail@.len(),
                    line@ =~= old(self).buffer.lines@[line_i - 1]@.add(tail@.take(j as int)),
                decreases n - j,
            {
                line.push(tail[j]);
                j = j + 1;
            }
            self.buffer.lines.insert(line_i - 1, line);
            self.cursor.line = line_i - 1;
            self.cursor.index = prev_len;
            self.cursor.affinity = Affinity::After;
            self.selection = None;
            self.buffer.redraw = true;
            self.buffer.shaped = None;
            proof {
                let m = old(self).view();
                let c = m.cursor;
                assert(line@ =~= m.lines[c.line - 1].add(m.lines[c.line]));
                assert(self.view().lines =~= m.lines.update(
                    c.line - 1,
                    m.lines[c.line - 1].add(m.lines[c.line]),
                ).remove(c.line));
                assert(self.view() == spec_delete_before(m));
            }
        }
    }

    /// Deletes the character after the cursor (joining the next line at a
    /// line end), forcing a redraw and dropping the shape cache when anything
    /// was deleted.
    pub fn delete_after(&mut self)
        requires
            old(self).wf(),
        ensures
            final(self).wf(),
            final(self).view() == spec_delete_after(old(self).view()),
            (final(self).buffer.shaped is Some) ==> final(self).buffer.shaped == old(self).buffer.shaped,
            final(self).buffer.font_size == old(self).buffer.font_size,
            final(self).buffer.line_height == old(self).buffer.line_height,
            final(self).buffer.width == old(self).buffer.width,
            final(self).buffer.height == old(self).buffer.height,
    {
        proof {
            axiom_spec_len(&self.buffer.lines);
        }
        let line_i = self.cursor.line;
        let idx = self.cursor.index;
        let len = self.buffer.lines[line_i].len();
        if idx < len {
            let mut line = self.buffer.lines.remove(line_i);
            line.remove(idx);
            self.buffer.lines.insert(line_i, line);
            self.selection = None;
            self.buffer.redraw = true;
            self.buffer.shaped = None;
            proof {
                let m = old(self).view();
                assert(self.view().lines =~= m.lines.update(
                    m.cursor.line,
                    m.lines[m.cursor.line].remove(m.cursor.index),
                ));
                assert(self.view() == spec_delete_after(m));
            }
        } else if line_i + 1 < self.buffer.lines.len() {
            let tail = self.buffer.lines.remove(line_i + 1);
            let mut line = self.buffer.lines.remove(line_i);
            let mut j: usize = 0;
            let n = tail.len();
            while j < n
                invariant
                    j <= n,
                    n == tail@.len(),
                    line@ =~= old(self).buffer.lines@[line_i as int]@.add(tail@.take(j as int)),
                decreases n - j,
            {
                line.push(tail[j]);
                j = j + 1;
            }
            self.buffer.lines.insert(line_i, line);
            self.selection = None;
            self.buffer.redraw = true;
            self.buffer.shaped = None;
            proof {
                let m = old(self).view();
                let c = m.cursor;
                assert(line@ =~= m.lines[c.line].add(m.lines[c.line + 1]));
                assert(self.view().lines =~= m.lines.update(
                    c.line,
                    m.lines[c.line].add(m.lines[c.line + 1]),
                ).remove(c.line + 1));
                assert(self.view() == spec_delete_after(m));
            }
        }
    }

    /// Clears the selection without moving the cursor.
    pub fn escape(&mut self)
        requires
            old(self).wf(),
        ensures
            final(self).wf(),
            final(self).view() == spec_escape(old(self).view()),
            final(self).buffer == old(self).buffer,
    {
        self.selection = None;
    }

    /// Selects the whole buffer: cursor to the end, anchor at the start.
    pub fn select_all(&mut self)
        requires
            old(self).wf(),
        ensures
            final(self).wf(),
            final(self).view() == spec_select_all(old(self).view()),
            final(self).buffer == old(self).buffer,
    {
        self.buffer_end();
        self.selection = Some(Cursor { line: 0, index: 0, affinity: Affinity::Before });
    }
}


/// A word-separating character: a space or a tab (lines never hold newlines).
pub open spec fn is_space_char(c: char) -> bool {
    c == ' ' || c == '\t'
}

/// Walks left from `i` over characters whose space-ness equals `in_space`:
/// the first index at or before `i` not preceded by such a character.
pub open spec fn back_while(s: Seq<char>, i: int, in_space: bool) -> int
    decreases i,
{
    if 0 < i <= s.len() && is_space_char(s[i - 1]) == in_space {
        back_while(s, i - 1, in_space)
    } else {
        i
    }
}

/// The previous word boundary: skip separators leftward, then the word they
/// end — the start of the word the cursor is in or of the word before it.
pub open spec fn prev_word_index(s: Seq<char>, i: int) -> int {
    back_while(s, back_while(s, i, true), false)
}

/// Walks right from `i` over characters whose space-ness equals `in_space`.
pub open spec fn fwd_while(s: Seq<char>, i: int, in_space: bool) -> int
    decreases s.len() - i,
{
    if 0 <= i < s.len() && is_space_char(s[i]) == in_space {
        fwd_while(s, i + 1, in_space)
    } else {
        i
    }
}

/// The next word boundary: skip the rest of the current word rightward, then
/// the separators after it — the start of the next word or the line's end.
pub open spec fn next_word_index(s: Seq<char>, i: int) -> int {
    fwd_while(s, fwd_while(s, i, false), true)
}

/// `back_while` stays within [0, i].
pub proof fn lemma_back_while_bounds(s: Seq<char>, i: int, in_space: bool)
    requires
        0 <= i <= s.len(),
    ensures
        0 <= back_while(s, i, in_space) <= i,
    decreases i,
{
    if 0 < i && is_space_char(s[i - 1]) == in_space {
        lemma_back_while_bounds(s, i - 1, in_space);
    }
}

/// `fwd_while` stays within [i, s.len()].
pub proof fn lemma_fwd_while_bounds(s: Seq<char>, i: int, in_space: bool)
    requires
        0 <= i <= s.len(),
    ensures
        i <= fwd_while(s, i, in_space) <= s.len(),
    decreases s.len() - i,
{
    if i < s.len() && is_space_char(s[i]) == in_space {
        lemma_fwd_while_bounds(s, i + 1, in_space);
    }
}

/// The cursor after a jump to the previous word boundary, or to the previous
/// line's end when already at a line start.
pub open spec fn spec_prev_word(m: EditorModel) -> EditorModel {
    let c = m.cursor;
    if c.index == 0 && c.line > 0 {
        EditorModel {
            cursor: CursorModel {
                line: c.line - 1,
                index: m.lines[c.line - 1].len() as int,
                after: true,
            },
            ..m
        }
    } else {
        EditorModel {
            cursor: CursorModel {
                line: c.line,
                index: prev_word_index(m.lines[c.line], c.index),
                after: true,
            },
            ..m
        }
    }
}

/// The cursor after a jump to the next word boundary, or to the next line's
/// start when already at a line end.
pub open spec fn spec_next_word(m: EditorModel) -> EditorModel {
    let c = m.cursor;
    if c.index == m.lines[c.line].len() && c.line + 1 < m.lines.len() {
        EditorModel { cursor: CursorModel { line: c.line + 1, index: 0, after: true }, ..m }
    } else {
        EditorModel {
            cursor: CursorModel {
                line: c.line,
                index: next_word_index(m.lines[c.line], c.index),
                after: true,
            },
            ..m
        }
    }
}

/// Whether `c` separates words.
fn is_space(c: char) -> (r: bool)
    ensures
        r == is_space_char(c),
{
    c == ' ' || c == '\t'
}

impl Editor {
    /// Moves the cursor to the previous word boundary.
    #[verifier::loop_isolation(false)]
    pub fn prev_word(&mut self)
        requires
            old(self).wf(),
        ensures
            final(self).wf(),
            final(self).view() == spec_prev_word(old(self).view()),
            final(self).buffer == old(self).buffer,
    {
        let line_i = self.cursor.line;
        let idx = self.cursor.index;
        if idx == 0 && line_i > 0 {
            self.cursor.line = line_i - 1;
            self.cursor.index = self.buffer.lines[line_i - 1].len();
            self.cursor.affinity = Affinity::After;
        } else {
            let ghost s = self.buffer.lines@[line_i as int]@;
            let mut i: usize = idx;
            while i > 0 && is_space(self.buffer.lines[line_i][i - 1])
                invariant
                    0 <= i <= idx,
                    back_while(s, idx as int, true) == back_while(s, i as int, true),
                decreases i,
            {
                i = i - 1;
            }
            proof {
                assert(back_while(s, i as int, true) == i as int);
            }
            let ghost mid = i as int;
            while i > 0 && !is_space(self.buffer.lines[line_i][i - 1])
                invariant
                    0 <= i <= mid,
                    back_while(s, mid, false) == back_while(s, i as int, false),
                decreases i,
            {
                i = i - 1;
            }
            proof {
                assert(back_while(s, i as int, false) == i as int);
                assert(prev_word_index(s, idx as int) == i as int);
            }
            self.cursor.index = i;
            self.cursor.affinity = Affinity::After;
        }
    }

    /// Moves the cursor to the next word boundary.
    #[verifier::loop_isolation(false)]
    pub fn next_word(&mut self)
        requires
            old(self).wf(),
        ensures
            final(self).wf(),
            final(self).view() == spec_next_word(old(self).view()),
            final(self).buffer == old(self).buffer,
    {
        proof {
            axiom_spec_len(&self.buffer.lines);
        }
        let line_i = self.cursor.line;
        let idx = self.cursor.index;
        let n = self.buffer.lines[line_i].len();
        if idx == n && line_i + 1 < self.buffer.lines.len() {
            self.cursor.line = line_i + 1;
            self.cursor.index = 0;
            self.cursor.affinity = Affinity::After;
        } else {
            let ghost s = self.buffer.lines@[line_i as int]@;
            let mut i: usize = idx;
            while i < n && !is_space(self.buffer.lines[line_i][i])
                invariant
                    idx <= i <= n,
                    fwd_while(s, idx as int, false) == fwd_while(s, i as int, false),
                decreases n - i,
            {
                i = i + 1;
            }
            proof {
                assert(fwd_while(s, i as int, false) == i as int);
            }
            let ghost mid = i as int;
            while i < n && is_space(self.buffer.lines[line_i][i])
                invariant
                    mid <= i <= n,
                    fwd_while(s, mid, true) == fwd_while(s, i as int, true),
                decreases n - i,
            {
                i = i + 1;
            }
            proof {
                assert(fwd_while(s, i as int, true) == i as int);
                assert(next_word_index(s, idx as int) == i as int);
            }
            self.cursor.index = i;
            self.cursor.affinity = Affinity::After;
        }
    }
}


/// How many bytes `c` occupies in UTF-8.
pub open spec fn char_utf8_len(c: char) -> int {
    if (c as u32) < 0x80 {
        1
    } else if (c as u32) < 0x800 {
        2
    } else if (c as u32) < 0x10000 {
        3
    } else {
        4
    }
}

/// The number of whole characters of `s` that fit within the first `byte`
/// UTF-8 bytes: the character index of the byte position, clamped to the
/// nearest character boundary at or before it.
pub open spec fn char_index_for_byte(s: Seq<char>, byte: int) -> int
    decreases s.len(),
{
    if s.len() == 0 || byte < char_utf8_len(s[0]) {
        0
    } else {
        1 + char_index_for_byte(s.drop_first(), byte - char_utf8_len(s[0]))
    }
}

/// The character index never exceeds the character count.
pub proof fn lemma_char_index_bounds(s: Seq<char>, byte: int)
    ensures
        0 <= char_index_for_byte(s, byte) <= s.len(),
    decreases s.len(),
{
    if !(s.len() == 0 || byte < char_utf8_len(s[0])) {
        lemma_char_index_bounds(s.drop_first(), byte - char_utf8_len(s[0]));
    }
}

/// How many bytes `c` occupies in UTF-8.
fn utf8_len(c: char) -> (r: usize)
    ensures
        r == char_utf8_len(c),
{
    let u: u32 = c as u32;
    if u < 0x80 {
        1
    } else if u < 0x800 {
        2
    } else if u < 0x10000 {
        3
    } else {
        4
    }
}

/// Converts a byte index within a line (as the outside hit test reports it)
/// into a character index, clamped to the nearest boundary at or before it.
#[verifier::loop_isolation(false)]
pub fn char_index_of_byte(line: &Vec<char>, byte: usize) -> (r: usize)
    ensures
        r == char_index_for_byte(line@, byte as int),
        r <= line@.len(),
{
    let n: usize = line.len();
    let mut i: usize = 0;
    let mut rem: usize = byte;
    proof {
        assert(line@.skip(0) =~= line@);
    }
    loop
        invariant
            i <= n,
            char_index_for_byte(line@, byte as int) == i + char_index_for_byte(
                line@.skip(i as int),
                rem as int,
            ),
        decreases n - i,
    {
        if i >= n {
            proof {
                assert(line@.skip(i as int).len() == 0);
            }
            return i;
        }
        let l = utf8_len(line[i]);
        if l > rem {
            proof {
                assert(line@.skip(i as int)[0] == line@[i as int]);
            }
            return i;
        }
        proof {
            assert(line@.skip(i as int)[0] == line@[i as int]);
            assert(line@.skip(i as int).drop_first() =~= line@.skip(i as int + 1));
        }
        rem = rem - l;
        i = i + 1;
    }
}

/// The cursor position a hit at (line, byte, affinity) maps to: the line
/// clamped to the last line, the byte index converted to the nearest
/// character boundary at or before it.
pub open spec fn clamped_hit_cursor(lines: Seq<Seq<char>>, line: int, byte: int, after: bool) -> CursorModel {
    let l = if line < lines.len() {
        line
    } else {
        lines.len() - 1
    };
    CursorModel { line: l, index: char_index_for_byte(lines[l], byte), after }
}

/// The editor after a click at a hit position: any selection collapses and
/// the cursor moves there.
pub open spec fn spec_click(m: EditorModel, line: int, byte: int, after: bool) -> EditorModel {
    EditorModel {
        cursor: clamped_hit_cursor(m.lines, line, byte, after),
        selection: Option::None,
        ..m
    }
}

/// The editor after a drag to a hit position: the selection anchors at the
/// cursor if none was set, and the cursor (the selection's moving end) moves
/// there.
pub open spec fn spec_drag(m: EditorModel, line: int, byte: int, after: bool) -> EditorModel {
    EditorModel {
        cursor: clamped_hit_cursor(m.lines, line, byte, after),
        selection: if m.selection is Some {
            m.selection
        } else {
            Option::Some(m.cursor)
        },
        ..m
    }
}

impl Editor {
    /// Places the cursor at a hit position and collapses the selection
    /// (click semantics).
    pub fn click(&mut self, line: usize, byte: usize, after: bool)
        requires
            old(self).wf(),
        ensures
            final(self).wf(),
            final(self).view() == spec_click(old(self).view(), line as int, byte as int, after),
            final(self).buffer == old(self).buffer,
    {
        let count = self.buffer.lines.len();
        let l: usize = if line < count {
            line
        } else {
            count - 1
        };
        let idx = char_index_of_byte(&self.buffer.lines[l], byte);
        self.cursor.line = l;
        self.cursor.index = idx;
        self.cursor.affinity = if after {
            Affinity::After
        } else {
            Affinity::Before
        };
        self.selection = None;
    }

    /// Extends the selection to a hit position: anchors the selection at the
    /// cursor if none was set, then moves the cursor there (drag semantics).
    pub fn drag(&mut self, line: usize, byte: usize, after: bool)
        requires
            old(self).wf(),
        ensures
            final(self).wf(),
            final(self).view() == spec_drag(old(self).view(), line as int, byte as int, after),
            final(self).buffer == old(self).buffer,
    {
        if self.selection.is_none() {
            self.selection = Some(self.cursor);
        }
        let count = self.buffer.lines.len();
        let l: usize = if line < count {
            line
        } else {
            count - 1
        };
        let idx = char_index_of_byte(&self.buffer.lines[l], byte);
        self.cursor.line = l;
        self.cursor.index = idx;
        self.cursor.affinity = if after {
            Affinity::After
        } else {
            Affinity::Before
        };
    }
}


/// The configuration an editor surface is built from: its initial text, its
/// alignment, optional initial pixel size, base font metrics, the display
/// scale factor as a rational num/den, and whether the surface starts
/// visible.
pub struct CosmicEditMeta {
    pub text: String,
    pub text_pos: CosmicTextPos,
    pub initial_size: Option<(u32, u32)>,
    pub font_size: u32,
    pub line_height: u32,
    pub scale_num: u32,
    pub scale_den: u32,
    pub is_visible: bool,
}

/// One displayable text surface: its editor, its alignment mode, and the
/// base (unscaled) font metrics the stored device-pixel metrics are derived
/// from on every scale change.
pub struct CosmicEditImage {
    pub editor: Editor,
    pub text_pos: CosmicTextPos,
    pub font_size: u32,
    pub font_line_height: u32,
}

impl CosmicEditImage {
    /// Well-formedness: the editor is well formed and the base metrics lie
    /// in [1, MAX_DIM].
    pub open spec fn wf(self) -> bool {
        &&& self.editor.wf()
        &&& 1 <= self.font_size <= MAX_DIM
        &&& 1 <= self.font_line_height <= MAX_DIM
    }

    /// Builds an editor surface from its configuration: base metrics clamped
    /// and scaled by the display factor into device pixels, the text split
    /// into lines, the cursor at the buffer start, no selection, a redraw
    /// pending, and the optional initial size applied.
    pub fn from_meta(meta: CosmicEditMeta) -> (ce: CosmicEditImage)
        requires
            1 <= meta.scale_den,
        ensures
            ce.wf(),
            ce.font_size == clamp_dim_spec(meta.font_size as int),
            ce.font_line_height == clamp_dim_spec(meta.line_height as int),
            ce.editor.view().lines == split_lines(meta.text@),
            ce.editor.view().cursor == (CursorModel { line: 0, index: 0, after: true }),
            (ce.editor.selection is None),
            ce.editor.is_deleting == false,
            ce.editor.buffer.redraw == true,
            (ce.editor.buffer.shaped is None),
            ce.editor.buffer.font_size == scale_dim_spec(
                ce.font_size as int,
                meta.scale_num as int,
                meta.scale_den as int,
            ),
            ce.editor.buffer.line_height == scale_dim_spec(
                ce.font_line_height as int,
                meta.scale_num as int,
                meta.scale_den as int,
            ),
            match meta.initial_size {
                Option::Some(s) => ce.editor.buffer.width == clamp_dim_spec(s.0 as int)
                    && ce.editor.buffer.height == clamp_dim_spec(s.1 as int),
                Option::None => ce.editor.buffer.width == 1 && ce.editor.buffer.height == 1,
            },
            ce.text_pos == meta.text_pos,
    {
        let base_fs = clamp_dim(meta.font_size);
        let base_lh = clamp_dim(meta.line_height);
        let fs = scale_dim(base_fs, meta.scale_num, meta.scale_den);
        let lh = scale_dim(base_lh, meta.scale_num, meta.scale_den);
        let mut buffer = TextBuffer::new(fs, lh);
        buffer.set_text(meta.text.as_str());
        match meta.initial_size {
            Option::Some((w, h)) => buffer.set_size(w, h),
            Option::None => {},
        }
        CosmicEditImage {
            editor: Editor {
                buffer,
                cursor: Cursor { line: 0, index: 0, affinity: Affinity::After },
                selection: None,
                is_deleting: false,
            },
            text_pos: meta.text_pos,
            font_size: base_fs,
            font_line_height: base_lh,
        }
    }
}

/// The editor's whole content as one string: its lines joined by newlines.
pub fn get_cosmic_text(editor: &Editor) -> (r: String)
    requires
        editor.wf(),
    ensures
        r@ == join_lines(editor.view().lines),
{
    editor.buffer.get_text()
}

} // verus!
