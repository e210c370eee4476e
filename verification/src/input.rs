//! The edit-action dispatcher: one frame's input batch applied to the active
//! editor, in the fixed precedence order.
//!
//! Per frame the host hands each editor a `FrameInput`.  Directional keys,
//! delete, backspace press and release apply in sequence without consuming
//! the frame; Enter, select-all, the word jumps, a pointer press and a held
//! pointer each consume the remainder of the frame; character input arrives
//! last, redirected to deletion while continuous-delete mode is active.
//! `spec_dispatch` states the whole step as a function of the editor model
//! and the input.

use vstd::prelude::*;
use crate::editor::{CosmicEditImage, Editor, EditorModel, spec_move_left, spec_move_right, spec_move_up, spec_move_down, spec_delete_after, spec_delete_before, spec_insert_char, spec_escape, spec_select_all, spec_prev_word, spec_next_word, spec_click, spec_drag};

verus! {

/// One frame's input for one editor: which keys were just pressed, the
/// modifier state, the pointer state with its precomputed hit position
/// (line, byte index, affinity-after, from the shaped layout), and the
/// character-input events in arrival order.
pub struct FrameInput {
    pub left: bool,
    pub right: bool,
    pub up: bool,
    pub down: bool,
    pub delete: bool,
    pub backspace_pressed: bool,
    pub backspace_released: bool,
    pub enter: bool,
    pub escape: bool,
    pub command: bool,
    pub option: bool,
    pub key_a: bool,
    pub mouse_just_pressed: bool,
    pub mouse_down: bool,
    pub pointer_hit: Option<(usize, usize, bool)>,
    pub chars: Vec<char>,
}

/// The editor with its continuous-delete mode set or cleared.
pub open spec fn spec_set_deleting(m: EditorModel, d: bool) -> EditorModel {
    EditorModel { is_deleting: d, ..m }
}

/// The directional moves of one frame, in Left, Right, Up, Down order.
pub open spec fn spec_arrows(m: EditorModel, left: bool, right: bool, up: bool, down: bool) -> EditorModel {
    let m1 = if left {
        spec_move_left(m)
    } else {
        m
    };
    let m2 = if right {
        spec_move_right(m1)
    } else {
        m1
    };
    let m3 = if up {
        spec_move_up(m2)
    } else {
        m2
    };
    if down {
        spec_move_down(m3)
    } else {
        m3
    }
}

/// The non-consuming key actions of one frame: the directional moves, then
/// delete-forward, then backspace — which deletes before the cursor and
/// enters continuous-delete mode — then a backspace release, which leaves
/// that mode.
pub open spec fn spec_keys(m: EditorModel, inp: FrameInput) -> EditorModel {
    let m1 = spec_arrows(m, inp.left, inp.right, inp.up, inp.down);
    let m2 = if inp.delete {
        spec_delete_after(m1)
    } else {
        m1
    };
    let m3 = if inp.backspace_pressed {
        spec_set_deleting(spec_delete_before(m2), true)
    } else {
        m2
    };
    if inp.backspace_released {
        spec_set_deleting(m3, false)
    } else {
        m3
    }
}

/// The character-input events of one frame applied in order: while
/// continuous-delete mode is active each character event deletes before the
/// cursor instead of inserting.
pub open spec fn spec_process_chars(m: EditorModel, cs: Seq<char>) -> EditorModel
    decreases cs.len(),
{
    if cs.len() == 0 {
        m
    } else {
        let m1 = if m.is_deleting {
            spec_delete_before(m)
        } else {
            spec_insert_char(m, cs[0])
        };
        spec_process_chars(m1, cs.drop_first())
    }
}

/// One whole dispatch step: the non-consuming key actions, then the first
/// consuming action if any fires — Enter, select-all, a word jump, a pointer
/// press, a held pointer — else Escape's selection collapse followed by the
/// frame's character input.  (Escape precedes the consuming pointer and
/// command actions and does not consume.)
pub open spec fn spec_dispatch(m: EditorModel, inp: FrameInput) -> EditorModel {
    let m1 = spec_keys(m, inp);
    if inp.enter {
        spec_insert_char(m1, '\n')
    } else {
        let m2 = if inp.escape {
            spec_escape(m1)
        } else {
            m1
        };
        if inp.command && inp.key_a {
            spec_select_all(m2)
        } else if inp.command && inp.option && inp.left {
            spec_prev_word(m2)
        } else if inp.command && inp.option && inp.right {
            spec_next_word(m2)
        } else if inp.mouse_just_pressed {
            match inp.pointer_hit {
                Option::Some(h) => spec_click(m2, h.0 as int, h.1 as int, h.2),
                Option::None => m2,
            }
        } else if inp.mouse_down {
            match inp.pointer_hit {
                Option::Some(h) => spec_drag(m2, h.0 as int, h.1 as int, h.2),
                Option::None => m2,
            }
        } else {
            spec_process_chars(m2, inp.chars@)
        }
    }
}

impl Editor {
    /// Applies one frame's character-input events, as `spec_process_chars`
    /// states: deletions while continuous-delete mode is active, insertions
    /// otherwise.
    #[verifier::loop_isolation(false)]
    pub fn process_chars(&mut self, chars: &Vec<char>)
        requires
            old(self).wf(),
        ensures
            final(self).wf(),
            final(self).view() == spec_process_chars(old(self).view(), chars@),
            final(self).buffer.font_size == old(self).buffer.font_size,
            final(self).buffer.line_height == old(self).buffer.line_height,
            final(self).buffer.width == old(self).buffer.width,
            final(self).buffer.height == old(self).buffer.height,
            final(self).view().shaped ==> final(self).buffer.shaped == old(self).buffer.shaped,
    {
        let n: usize = chars.len();
        let mut k: usize = 0;
        proof {
            assert(chars@.skip(0) =~= chars@);
        }
        while k < n
            invariant
                k <= n,
                self.wf(),
                spec_process_chars(old(self).view(), chars@) == spec_process_chars(
                    self.view(),
                    chars@.skip(k as int),
                ),
                self.buffer.font_size == old(self).buffer.font_size,
                self.buffer.line_height == old(self).buffer.line_height,
                self.buffer.width == old(self).buffer.width,
                self.buffer.height == old(self).buffer.height,
                (self.buffer.shaped is Some) ==> self.buffer.shaped == old(self).buffer.shaped,
            decreases n - k,
        {
            if self.is_deleting {
                self.delete_before();
            } else {
                let c = chars[k];
                self.insert_char(c);
            }
            proof {
                assert(chars@.skip(k as int)[0] == chars@[k as int]);
                assert(chars@.skip(k as int).drop_first() =~= chars@.skip(k as int + 1));
            }
            k = k + 1;
        }
        proof {
            assert(chars@.skip(n as int).len() == 0);
        }
    }

    /// Applies the directional moves of one frame, as `spec_arrows` states.
    #[verifier::spinoff_prover]
    fn apply_arrows(&mut self, input: &FrameInput)
        requires
            old(self).wf(),
        ensures
            final(self).wf(),
            final(self).view() == spec_arrows(old(self).view(), input.left, input.right, input.up, input.down),
            final(self).buffer == old(self).buffer,
    {
        let ghost m0 = self.view();
        if input.left {
            self.move_left();
        }
        let ghost ml = self.view();
        proof {
            assert(ml == if input.left { spec_move_left(m0) } else { m0 });
        }
        if input.right {
            self.move_right();
        }
        let ghost mr = self.view();
        proof {
            assert(mr == if input.right { spec_move_right(ml) } else { ml });
        }
        if input.up {
            self.move_up();
        }
        let ghost mu = self.view();
        proof {
            assert(mu == if input.up { spec_move_up(mr) } else { mr });
        }
        if input.down {
            self.move_down();
        }
        proof {
            assert(self.view() == if input.down { spec_move_down(mu) } else { mu });
        }
    }

    /// Applies the non-consuming key actions of one frame, as `spec_keys`
    /// states.
    #[verifier::spinoff_prover]
    fn apply_keys(&mut self, input: &FrameInput)
        requires
            old(self).wf(),
        ensures
            final(self).wf(),
            final(self).view() == spec_keys(old(self).view(), *input),
            final(self).buffer.font_size == old(self).buffer.font_size,
            final(self).buffer.line_height == old(self).buffer.line_height,
            final(self).buffer.width == old(self).buffer.width,
            final(self).buffer.height == old(self).buffer.height,
            final(self).view().shaped ==> final(self).buffer.shaped == old(self).buffer.shaped,
    {
        let ghost m0 = self.view();
        self.apply_arrows(input);
        let ghost md = self.view();
        if input.delete {
            self.delete_after();
        }
        let ghost mdel = self.view();
        proof {
            assert(mdel == if input.delete { spec_delete_after(md) } else { md });
        }
        if input.backspace_pressed {
            self.delete_before();
            self.is_deleting = true;
        }
        let ghost mb = self.view();
        proof {
            assert(mb == if input.backspace_pressed {
                spec_set_deleting(spec_delete_before(mdel), true)
            } else {
                mdel
            });
        }
        if input.backspace_released {
            self.is_deleting = false;
        }
        proof {
            assert(self.view() == if input.backspace_released { spec_set_deleting(mb, false) } else { mb });
            assert(self.view() == spec_keys(m0, *input));
        }
    }

    /// Applies one frame's input batch to this editor, in the fixed
    /// precedence order `spec_dispatch` states.
    #[verifier::rlimit(50)]
    pub fn dispatch(&mut self, input: &FrameInput)
        requires
            old(self).wf(),
        ensures
            final(self).wf(),
            final(self).view() == spec_dispatch(old(self).view(), *input),
            final(self).buffer.font_size == old(self).buffer.font_size,
            final(self).buffer.line_height == old(self).buffer.line_height,
            final(self).buffer.width == old(self).buffer.width,
            final(self).buffer.height == old(self).buffer.height,
            final(self).view().shaped ==> final(self).buffer.shaped == old(self).buffer.shaped,
    {
        self.apply_keys(input);
        if input.enter {
            self.insert_char('\n');
            return ;
        }
        if input.escape {
            self.escape();
        }
        if input.command && input.key_a {
            self.select_all();
            return ;
        }
        if input.command && input.option && input.left {
            self.prev_word();
            return ;
        }
        if input.command && input.option && input.right {
            self.next_word();
            return ;
        }
        if input.mouse_just_pressed {
            match input.pointer_hit {
                Option::Some((line, byte, after)) => self.click(line, byte, after),
                Option::None => {},
            }
            return ;
        }
        if input.mouse_down {
            match input.pointer_hit {
                Option::Some((line, byte, after)) => self.drag(line, byte, after),
                Option::None => {},
            }
            return ;
        }
        self.process_chars(&input.chars);
    }
}

/// A run of `n` deletions before the cursor.
pub open spec fn spec_repeat_delete(m: EditorModel, n: int) -> EditorModel
    decreases n,
{
    if n <= 0 {
        m
    } else {
        spec_repeat_delete(spec_delete_before(m), n - 1)
    }
}

/// Continuous delete: while continuous-delete mode is active, a frame's
/// character-input events produce one deletion each — never an insertion —
/// however many arrive and whatever characters they carry.
pub proof fn lemma_continuous_delete(m: EditorModel, cs: Seq<char>)
    requires
        m.is_deleting,
    ensures
        spec_process_chars(m, cs) == spec_repeat_delete(m, cs.len() as int),
    decreases cs.len(),
{
    if cs.len() > 0 {
        lemma_continuous_delete(spec_delete_before(m), cs.drop_first());
    }
}

/// Holding Backspace redirects a whole frame's character input to deletions:
/// when Backspace was just pressed and not released, and no consuming action
/// (Enter, select-all, word jump, pointer) fires, the dispatch step is the
/// non-consuming key actions followed by one deletion per character event.
pub proof fn lemma_backspace_redirects_chars(m: EditorModel, inp: FrameInput)
    requires
        inp.backspace_pressed,
        !inp.backspace_released,
        !inp.enter,
        !(inp.command && inp.key_a),
        !(inp.command && inp.option && inp.left),
        !(inp.command && inp.option && inp.right),
        !inp.mouse_just_pressed,
        !inp.mouse_down,
    ensures
        spec_dispatch(m, inp) == spec_repeat_delete(
            if inp.escape {
                spec_escape(spec_keys(m, inp))
            } else {
                spec_keys(m, inp)
            },
            inp.chars@.len() as int,
        ),
{
    let m1 = spec_keys(m, inp);
    let m2 = if inp.escape {
        spec_escape(m1)
    } else {
        m1
    };
    assert(m2.is_deleting);
    lemma_continuous_delete(m2, inp.chars@);
}


/// Runs one frame's input for one editor surface, which reacts only while it
/// is the editor currently marked active: every other surface ignores the
/// frame's input entirely and is left untouched.
pub fn handle_frame_input(
    ce: &mut CosmicEditImage,
    id: u64,
    active: &crate::passes::ActiveEditor,
    input: &FrameInput,
)
    requires
        old(ce).wf(),
    ensures
        final(ce).wf(),
        active.entity != Some(id) ==> *final(ce) == *old(ce),
        active.entity == Some(id) ==> {
            &&& final(ce).editor.view() == spec_dispatch(old(ce).editor.view(), *input)
            &&& final(ce).text_pos == old(ce).text_pos
            &&& final(ce).font_size == old(ce).font_size
            &&& final(ce).font_line_height == old(ce).font_line_height
            &&& final(ce).editor.buffer.font_size == old(ce).editor.buffer.font_size
            &&& final(ce).editor.buffer.line_height == old(ce).editor.buffer.line_height
            &&& final(ce).editor.buffer.width == old(ce).editor.buffer.width
            &&& final(ce).editor.buffer.height == old(ce).editor.buffer.height
        },
{
    let is_active: bool = match active.entity {
        Option::Some(a) => a == id,
        Option::None => false,
    };
    if is_active {
        ce.editor.dispatch(input);
    }
}

} // verus!
