//! The per-frame passes that act on every editor: the active-editor focus
//! transition and the display scale-factor change.

use vstd::prelude::*;
use vstd::std_specs::vec::axiom_spec_len;
use crate::buffer::{TextBuffer, scale_dim, scale_dim_spec};
use crate::editor::{Editor, Cursor, Affinity, CosmicEditImage};

verus! {

/// The identity of the editor that currently has focus, if any.  Written by
/// the host's input handling; read by every pass.
pub struct ActiveEditor {
    pub entity: Option<u64>,
}

/// An editor that just became active: its selection cleared, its cursor at
/// the buffer end, a redraw pending.  Nothing else changes.
pub open spec fn spec_focus_editor(ce: CosmicEditImage) -> CosmicEditImage {
    let lines = ce.editor.buffer.lines_view();
    CosmicEditImage {
        editor: Editor {
            cursor: Cursor {
                line: (lines.len() - 1) as usize,
                index: lines[lines.len() - 1].len() as usize,
                affinity: Affinity::After,
            },
            selection: Option::None,
            buffer: TextBuffer { redraw: true, ..ce.editor.buffer },
            ..ce.editor
        },
        ..ce
    }
}

/// One focus-transition step.  It fires only when the active identity
/// differs from the previously recorded one: then every editor whose id is
/// the new active identity is focused (`spec_focus_editor`) and the recorded
/// identity becomes the new one.  When the identity is unchanged — an
/// idempotent re-confirmation — nothing happens at all.
pub open spec fn spec_focus_step(
    editors: Seq<CosmicEditImage>,
    ids: Seq<u64>,
    active: Option<u64>,
    previous: Option<u64>,
) -> (Seq<CosmicEditImage>, Option<u64>) {
    if active == previous {
        (editors, previous)
    } else {
        (
            match active {
                Option::None => editors,
                Option::Some(id) => Seq::new(
                    editors.len(),
                    |j: int|
                        if ids[j] == id {
                            spec_focus_editor(editors[j])
                        } else {
                            editors[j]
                        },
                ),
            },
            active,
        )
    }
}

/// Re-confirming the same active editor is a no-op: a second focus step with
/// the same active identity leaves every editor and the recorded identity
/// exactly as the first step left them, so the selection is cleared and the
/// cursor reset exactly once.
pub proof fn lemma_focus_idempotent(
    editors: Seq<CosmicEditImage>,
    ids: Seq<u64>,
    active: Option<u64>,
    previous: Option<u64>,
)
    ensures
        ({
            let first = spec_focus_step(editors, ids, active, previous);
            spec_focus_step(first.0, ids, active, first.1) == first
        }),
{
}

/// Runs the focus transition over all editors, as `spec_focus_step` states:
/// when the active identity changed, each editor whose id matches it loses
/// its selection, gets its cursor moved to the buffer end and a redraw
/// forced, and the previously seen identity is updated; when it is unchanged
/// nothing happens.
#[verifier::loop_isolation(false)]
pub fn active_editor_changed(
    editors: &mut Vec<CosmicEditImage>,
    ids: &Vec<u64>,
    active: &ActiveEditor,
    previous: &mut Option<u64>,
)
    requires
        old(editors)@.len() == ids@.len(),
        forall|i: int| 0 <= i < old(editors)@.len() ==> #[trigger] old(editors)@[i].wf(),
    ensures
        final(editors)@ == spec_focus_step(old(editors)@, ids@, active.entity, *old(previous)).0,
        *final(previous) == spec_focus_step(old(editors)@, ids@, active.entity, *old(previous)).1,
        forall|i: int| 0 <= i < final(editors)@.len() ==> #[trigger] final(editors)@[i].wf(),
{
    let same: bool = match (&active.entity, &previous) {
        (Option::Some(a), Option::Some(p)) => *a == *p,
        (Option::None, Option::None) => true,
        _ => false,
    };
    if same {
        proof {
            assert(active.entity == *previous);
        }
        return ;
    }
    proof {
        assert(active.entity != *previous);
    }
    match active.entity {
        Option::None => {
            *previous = None;
            proof {
                assert forall|i: int| 0 <= i < editors@.len() implies #[trigger] editors@[i].wf() by {
                    assert(old(editors)@[i].wf());
                }
            }
        },
        Option::Some(id) => {
            let ghost eds0 = editors@;
            let n: usize = editors.len();
            let mut k: usize = 0;
            while k < n
                invariant
                    k <= n,
                    editors@.len() == n,
                    eds0.len() == n,
                    forall|i: int| 0 <= i < n ==> #[trigger] eds0[i].wf(),
                    forall|i: int|
                        k <= i < n ==> #[trigger] editors@[i] == eds0[i],
                    forall|i: int|
                        0 <= i < k ==> #[trigger] editors@[i] == (if ids@[i] == id {
                            spec_focus_editor(eds0[i])
                        } else {
                            eds0[i]
                        }),
                decreases n - k,
            {
                if ids[k] == id {
                    let mut ce = editors.remove(k);
                    proof {
                        assert(ce == eds0[k as int]);
                        assert(eds0[k as int].wf());
                    }
                    ce.editor.buffer_end();
                    ce.editor.selection = None;
                    ce.editor.buffer.set_redraw(true);
                    editors.insert(k, ce);
                    proof {
                        assert(editors@[k as int] == spec_focus_editor(eds0[k as int]));
                        assert forall|i: int| k + 1 <= i < n implies #[trigger] editors@[i]
                            == eds0[i] by {
                            assert(editors@[i] == eds0[i]);
                        }
                    }
                }
                k = k + 1;
            }
            *previous = Some(id);
            proof {
                let want = spec_focus_step(eds0, ids@, active.entity, *old(previous)).0;
                assert(editors@ =~= want);
                assert forall|i: int| 0 <= i < editors@.len() implies #[trigger] editors@[i].wf() by {
                    assert(eds0[i].wf());
                    if ids@[i] == id {
                        axiom_spec_len(&eds0[i].editor.buffer.lines);
                        assert(editors@[i] == spec_focus_editor(eds0[i]));
                    } else {
                        assert(editors@[i] == eds0[i]);
                    }
                }
            }
        },
    }
}

/// A surface after a scale-factor change to `num / den`: the stored metrics
/// recomputed from the base metrics, the stored pixel size recomputed from
/// the layout size (`lw`, `lh`), the shape cache dropped and a redraw forced.
/// Lines, cursor, selection and the base metrics are untouched.
pub open spec fn spec_scale_editor(ce: CosmicEditImage, lw: u32, lh: u32, num: int, den: int) -> CosmicEditImage {
    CosmicEditImage {
        editor: Editor {
            buffer: TextBuffer {
                font_size: scale_dim_spec(ce.font_size as int, num, den) as u32,
                line_height: scale_dim_spec(ce.font_line_height as int, num, den) as u32,
                width: scale_dim_spec(lw as int, num, den) as u32,
                height: scale_dim_spec(lh as int, num, den) as u32,
                redraw: true,
                shaped: Option::None,
                ..ce.editor.buffer
            },
            ..ce.editor
        },
        ..ce
    }
}

/// Applies a scale-factor change to every editor at once, as
/// `spec_scale_editor` states, with `layout_sizes[i]` the i-th surface's
/// layout size: each editor's stored metrics become its base metrics scaled
/// by `num / den`, its stored pixel size becomes its layout size so scaled,
/// and every editor gets a redraw forced.
#[verifier::loop_isolation(false)]
pub fn scale_factor_changed(
    editors: &mut Vec<CosmicEditImage>,
    layout_sizes: &Vec<(u32, u32)>,
    num: u32,
    den: u32,
)
    requires
        1 <= den,
        old(editors)@.len() == layout_sizes@.len(),
        forall|i: int| 0 <= i < old(editors)@.len() ==> #[trigger] old(editors)@[i].wf(),
    ensures
        final(editors)@.len() == old(editors)@.len(),
        forall|i: int|
            0 <= i < final(editors)@.len() ==> #[trigger] final(editors)@[i] == spec_scale_editor(
                old(editors)@[i],
                layout_sizes@[i].0,
                layout_sizes@[i].1,
                num as int,
                den as int,
            ),
        forall|i: int| 0 <= i < final(editors)@.len() ==> #[trigger] final(editors)@[i].wf(),
{
    let ghost eds0 = editors@;
    let n: usize = editors.len();
    let mut k: usize = 0;
    while k < n
        invariant
            k <= n,
            editors@.len() == n,
            eds0.len() == n,
            forall|i: int| 0 <= i < n ==> #[trigger] eds0[i].wf(),
            forall|i: int| k <= i < n ==> #[trigger] editors@[i] == eds0[i],
            forall|i: int|
                0 <= i < k ==> #[trigger] editors@[i] == spec_scale_editor(
                    eds0[i],
                    layout_sizes@[i].0,
                    layout_sizes@[i].1,
                    num as int,
                    den as int,
                ),
        decreases n - k,
    {
        let (lw, lh) = layout_sizes[k];
        let mut ce = editors.remove(k);
        ce.editor.buffer.font_size = scale_dim(ce.font_size, num, den);
        ce.editor.buffer.line_height = scale_dim(ce.font_line_height, num, den);
        ce.editor.buffer.width = scale_dim(lw, num, den);
        ce.editor.buffer.height = scale_dim(lh, num, den);
        ce.editor.buffer.redraw = true;
        ce.editor.buffer.shaped = None;
        editors.insert(k, ce);
        proof {
            assert(editors@[k as int] == spec_scale_editor(
                eds0[k as int],
                layout_sizes@[k as int].0,
                layout_sizes@[k as int].1,
                num as int,
                den as int,
            ));
            assert forall|i: int| k + 1 <= i < n implies #[trigger] editors@[i] == eds0[i] by {
                assert(editors@[i] == eds0[i]);
            }
        }
        k = k + 1;
    }
    proof {
        assert forall|i: int| 0 <= i < editors@.len() implies #[trigger] editors@[i].wf() by {
            assert(eds0[i].wf());
            assert(editors@[i] == spec_scale_editor(
                eds0[i],
                layout_sizes@[i].0,
                layout_sizes@[i].1,
                num as int,
                den as int,
            ));
        }
    }
}

/// A scale change from 1.0 to 2.0 doubles the stored metrics and the stored
/// pixel size and forces a redraw, for an editor whose stored state matches
/// its base metrics and layout size (scale 1.0) and whose doubled values stay
/// in range.
pub proof fn lemma_scale_doubles(ce: CosmicEditImage, lw: u32, lh: u32)
    requires
        ce.wf(),
        ce.editor.buffer.font_size == ce.font_size,
        ce.editor.buffer.line_height == ce.font_line_height,
        ce.editor.buffer.width == lw,
        ce.editor.buffer.height == lh,
        2 * ce.font_size <= crate::buffer::MAX_DIM,
        2 * ce.font_line_height <= crate::buffer::MAX_DIM,
        1 <= lw,
        2 * lw <= crate::buffer::MAX_DIM,
        1 <= lh,
        2 * lh <= crate::buffer::MAX_DIM,
    ensures
        ({
            let scaled = spec_scale_editor(ce, lw, lh, 2, 1);
            &&& scaled.editor.buffer.font_size == 2 * ce.editor.buffer.font_size
            &&& scaled.editor.buffer.line_height == 2 * ce.editor.buffer.line_height
            &&& scaled.editor.buffer.width == 2 * ce.editor.buffer.width
            &&& scaled.editor.buffer.height == 2 * ce.editor.buffer.height
            &&& scaled.editor.buffer.redraw == true
        }),
{
}

} // verus!
