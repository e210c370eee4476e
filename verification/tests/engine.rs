//! Tests of the text buffer, the edit operations and the frame passes, all
//! over plain values.

use cosmic_edit::buffer::TextBuffer;
use cosmic_edit::editor::{Affinity, CosmicEditImage, CosmicEditMeta, CosmicTextPos, Cursor, Editor, get_cosmic_text};
use cosmic_edit::input::{handle_frame_input, FrameInput};
use cosmic_edit::passes::{active_editor_changed, scale_factor_changed, ActiveEditor};

fn meta(text: &str) -> CosmicEditMeta {
    CosmicEditMeta {
        text: text.to_string(),
        text_pos: CosmicTextPos::Center,
        initial_size: None,
        font_size: 18,
        line_height: 20,
        scale_num: 1,
        scale_den: 1,
        is_visible: true,
    }
}

fn quiet_input() -> FrameInput {
    FrameInput {
        left: false,
        right: false,
        up: false,
        down: false,
        delete: false,
        backspace_pressed: false,
        backspace_released: false,
        enter: false,
        escape: false,
        command: false,
        option: false,
        key_a: false,
        mouse_just_pressed: false,
        mouse_down: false,
        pointer_hit: None,
        chars: Vec::new(),
    }
}

#[test]
fn test_spawn_cosmic_edit() {
    let ce = CosmicEditImage::from_meta(meta("Blah"));
    let lines: Vec<String> = ce
        .editor
        .buffer
        .lines
        .iter()
        .map(|l| l.iter().collect::<String>())
        .collect();
    assert_eq!(lines, vec!["Blah".to_string()]);
    assert_eq!(ce.editor.buffer.font_size, 18);
    assert_eq!(ce.editor.buffer.line_height, 20);
    assert!(ce.editor.buffer.redraw);
}

#[test]
fn test_set_text_round_trip() {
    let mut b = TextBuffer::new(18, 20);
    b.set_text("alpha\nbeta\n\ngamma");
    assert_eq!(b.lines.len(), 4);
    assert_eq!(b.get_text(), "alpha\nbeta\n\ngamma");
}

#[test]
fn test_set_text_empty() {
    let mut b = TextBuffer::new(18, 20);
    b.set_text("");
    assert_eq!(b.lines.len(), 1);
    assert_eq!(b.get_text(), "");
}

#[test]
fn test_trailing_newline_round_trip() {
    let mut b = TextBuffer::new(18, 20);
    b.set_text("one\n");
    assert_eq!(b.lines.len(), 2);
    assert_eq!(b.get_text(), "one\n");
}

#[test]
fn test_visible_lines() {
    let mut b = TextBuffer::new(18, 20);
    b.set_size(200, 100);
    assert_eq!(b.visible_lines(), 5);
}

#[test]
fn test_insert_and_enter() {
    let mut ce = CosmicEditImage::from_meta(meta("ab"));
    ce.editor.move_right();
    ce.editor.insert_char('X');
    assert_eq!(get_cosmic_text(&ce.editor), "aXb");
    ce.editor.insert_char('\n');
    assert_eq!(get_cosmic_text(&ce.editor), "aX\nb");
    assert_eq!(ce.editor.cursor.line, 1);
    assert_eq!(ce.editor.cursor.index, 0);
}

#[test]
fn test_backspace_joins_lines() {
    let mut ce = CosmicEditImage::from_meta(meta("ab\ncd"));
    // Cursor starts at (0, 0); move to the start of the second line.
    ce.editor.move_down();
    assert_eq!(ce.editor.cursor.line, 1);
    assert_eq!(ce.editor.cursor.index, 0);
    ce.editor.delete_before();
    assert_eq!(get_cosmic_text(&ce.editor), "abcd");
    assert_eq!(ce.editor.cursor.line, 0);
    assert_eq!(ce.editor.cursor.index, 2);
}

#[test]
fn test_delete_forward_joins_lines() {
    let mut ce = CosmicEditImage::from_meta(meta("ab\ncd"));
    ce.editor.move_right();
    ce.editor.move_right();
    // Cursor at the end of "ab": delete-forward joins the next line up.
    ce.editor.delete_after();
    assert_eq!(get_cosmic_text(&ce.editor), "abcd");
    assert_eq!(ce.editor.cursor.index, 2);
}

#[test]
fn test_move_left_wraps_to_previous_line() {
    let mut ce = CosmicEditImage::from_meta(meta("ab\ncd"));
    ce.editor.move_down();
    ce.editor.move_left();
    assert_eq!(ce.editor.cursor.line, 0);
    assert_eq!(ce.editor.cursor.index, 2);
}

#[test]
fn test_word_jumps() {
    let mut ce = CosmicEditImage::from_meta(meta("hello  world"));
    ce.editor.buffer_end();
    assert_eq!(ce.editor.cursor.index, 12);
    ce.editor.prev_word();
    assert_eq!(ce.editor.cursor.index, 7);
    ce.editor.prev_word();
    assert_eq!(ce.editor.cursor.index, 0);
    ce.editor.next_word();
    assert_eq!(ce.editor.cursor.index, 7);
}

#[test]
fn test_select_all_and_escape() {
    let mut ce = CosmicEditImage::from_meta(meta("ab\ncd"));
    ce.editor.select_all();
    assert_eq!(ce.editor.cursor.line, 1);
    assert_eq!(ce.editor.cursor.index, 2);
    let sel = ce.editor.selection.expect("select-all anchors a selection");
    assert_eq!(sel.line, 0);
    assert_eq!(sel.index, 0);
    assert_eq!(sel.affinity, Affinity::Before);
    ce.editor.escape();
    assert!(ce.editor.selection.is_none());
    assert_eq!(ce.editor.cursor.line, 1);
}

#[test]
fn test_click_places_cursor_and_clamps() {
    let mut ce = CosmicEditImage::from_meta(meta("ab\ncd"));
    ce.editor.select_all();
    ce.editor.click(0, 1, true);
    assert!(ce.editor.selection.is_none());
    assert_eq!(ce.editor.cursor.line, 0);
    assert_eq!(ce.editor.cursor.index, 1);
    // A hit beyond the last line or past a line's bytes clamps.
    ce.editor.click(7, 99, false);
    assert_eq!(ce.editor.cursor.line, 1);
    assert_eq!(ce.editor.cursor.index, 2);
    assert_eq!(ce.editor.cursor.affinity, Affinity::Before);
}

#[test]
fn test_drag_anchors_selection() {
    let mut ce = CosmicEditImage::from_meta(meta("abcd"));
    ce.editor.click(0, 1, true);
    ce.editor.drag(0, 3, true);
    let sel = ce.editor.selection.expect("drag anchors the selection");
    assert_eq!(sel.index, 1);
    assert_eq!(ce.editor.cursor.index, 3);
    // A further drag moves only the cursor end.
    ce.editor.drag(0, 2, true);
    assert_eq!(ce.editor.selection.unwrap().index, 1);
    assert_eq!(ce.editor.cursor.index, 2);
}

#[test]
fn test_continuous_delete_redirects_chars() {
    let mut ce = CosmicEditImage::from_meta(meta("abc"));
    ce.editor.buffer_end();
    let mut input = quiet_input();
    input.backspace_pressed = true;
    input.chars = vec!['x', 'y'];
    ce.editor.dispatch(&input);
    // Backspace deleted 'c'; both character events deleted instead of inserting.
    assert_eq!(get_cosmic_text(&ce.editor), "");
    assert!(ce.editor.is_deleting);
    let mut release = quiet_input();
    release.backspace_released = true;
    release.chars = vec!['z'];
    ce.editor.dispatch(&release);
    assert_eq!(get_cosmic_text(&ce.editor), "z");
    assert!(!ce.editor.is_deleting);
}

#[test]
fn test_enter_consumes_frame() {
    let mut ce = CosmicEditImage::from_meta(meta("ab"));
    ce.editor.buffer_end();
    let mut input = quiet_input();
    input.enter = true;
    input.chars = vec!['q'];
    ce.editor.dispatch(&input);
    // Enter inserted the newline and consumed the rest of the frame.
    assert_eq!(get_cosmic_text(&ce.editor), "ab\n");
}

#[test]
fn test_dispatch_select_all_consumes_frame() {
    let mut ce = CosmicEditImage::from_meta(meta("ab"));
    let mut input = quiet_input();
    input.command = true;
    input.key_a = true;
    input.chars = vec!['q'];
    ce.editor.dispatch(&input);
    assert_eq!(get_cosmic_text(&ce.editor), "ab");
    assert!(ce.editor.selection.is_some());
    assert_eq!(ce.editor.cursor.index, 2);
}

#[test]
fn test_focus_transition_runs_once() {
    let mut editors = vec![
        CosmicEditImage::from_meta(meta("first")),
        CosmicEditImage::from_meta(meta("second")),
    ];
    let ids = vec![11u64, 22u64];
    let mut previous: Option<u64> = None;
    let active = ActiveEditor { entity: Some(11) };
    active_editor_changed(&mut editors, &ids, &active, &mut previous);
    assert_eq!(previous, Some(11));
    assert_eq!(editors[0].editor.cursor.index, 5);
    assert!(editors[0].editor.selection.is_none());
    assert!(editors[0].editor.buffer.redraw);
    // Give the focused editor a selection, then re-confirm the same active
    // editor twice: both re-confirmations are no-ops.
    editors[0].editor.selection = Some(Cursor { line: 0, index: 0, affinity: Affinity::Before });
    active_editor_changed(&mut editors, &ids, &active, &mut previous);
    active_editor_changed(&mut editors, &ids, &active, &mut previous);
    assert!(editors[0].editor.selection.is_some());
    assert_eq!(previous, Some(11));
    // The other editor was never touched.
    assert_eq!(editors[1].editor.cursor.index, 0);
}

#[test]
fn test_scale_change_doubles_metrics() {
    let mut m = meta("hi");
    m.initial_size = Some((100, 50));
    let mut editors = vec![CosmicEditImage::from_meta(m)];
    editors[0].editor.buffer.set_redraw(false);
    let layout_sizes = vec![(100u32, 50u32)];
    scale_factor_changed(&mut editors, &layout_sizes, 2, 1);
    let b = &editors[0].editor.buffer;
    assert_eq!(b.font_size, 36);
    assert_eq!(b.line_height, 40);
    assert_eq!(b.width, 200);
    assert_eq!(b.height, 100);
    assert!(b.redraw);
    // The base metrics stay, so the next scale change starts from them.
    assert_eq!(editors[0].font_size, 18);
    assert_eq!(editors[0].font_line_height, 20);
}

#[test]
fn test_set_metrics_noop_keeps_state() {
    let mut b = TextBuffer::new(18, 20);
    b.set_text("x");
    b.set_redraw(false);
    b.set_metrics(18, 20);
    assert!(!b.redraw);
    b.set_metrics(19, 20);
    assert!(b.redraw);
}

#[test]
fn test_editor_wf_dispatch_smoke() {
    // A small storm of inputs never breaks the cursor invariant (the library
    // proves this; the test exercises the executable path).
    let mut ce = CosmicEditImage::from_meta(meta("one\ntwo three\nfour"));
    let mut input = quiet_input();
    input.left = true;
    input.up = true;
    input.delete = true;
    ce.editor.dispatch(&input);
    let mut input2 = quiet_input();
    input2.command = true;
    input2.option = true;
    input2.right = true;
    ce.editor.dispatch(&input2);
    let e: &Editor = &ce.editor;
    assert!(e.cursor.line < e.buffer.lines.len());
    assert!(e.cursor.index <= e.buffer.lines[e.cursor.line].len());
}

#[test]
fn test_inactive_editor_ignores_input() {
    let mut ce = CosmicEditImage::from_meta(meta("ab"));
    let active = ActiveEditor { entity: Some(7) };
    let mut input = quiet_input();
    input.chars = vec!['x'];
    // Not the active editor: the whole frame's input is ignored.
    handle_frame_input(&mut ce, 9, &active, &input);
    assert_eq!(get_cosmic_text(&ce.editor), "ab");
    // The active editor reacts.
    handle_frame_input(&mut ce, 7, &active, &input);
    assert_eq!(get_cosmic_text(&ce.editor), "xab");
}
