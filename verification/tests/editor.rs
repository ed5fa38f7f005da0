use gitcmd::editor::Editor;
use gitcmd::editor::ReadResult;
use gitcmd::editor::Step;
use gitcmd::editor::read_script;
use gitcmd::keys::Key;

fn typed(s: &str) -> Vec<Key> {
    s.chars().map(Key::Printable).collect()
}

fn no_history() -> Vec<String> {
    Vec::new()
}

fn run(keys: Vec<Key>, history: &Vec<String>) -> ReadResult {
    let mut cursor: Option<usize> = None;
    read_script(&keys, history, &mut cursor)
}

#[test]
fn typing_appends_in_order() {
    let history = no_history();
    let mut ed = Editor::new();
    for k in typed("status") {
        assert_eq!(ed.step(k, &history), Step::Continue);
    }
    assert_eq!(ed.line(), "status");
    assert_eq!(ed.cursor, 6);
}

#[test]
fn backspace_undoes_insertion() {
    let history = no_history();
    let mut ed = Editor::new();
    for k in typed("abc") {
        ed.step(k, &history);
    }
    ed.step(Key::ArrowLeft, &history);
    let buffer_before: Vec<char> = ed.buffer.clone();
    let cursor_before = ed.cursor;
    ed.step(Key::Printable('x'), &history);
    ed.step(Key::Backspace, &history);
    assert_eq!(ed.buffer, buffer_before);
    assert_eq!(ed.cursor, cursor_before);
}

#[test]
fn backspace_at_origin_is_a_no_op() {
    let history = no_history();
    let mut ed = Editor::new();
    ed.step(Key::Backspace, &history);
    assert_eq!(ed.line(), "");
    assert_eq!(ed.cursor, 0);
}

#[test]
fn left_then_right_is_a_no_op() {
    let history = no_history();
    let mut ed = Editor::new();
    for k in typed("abcd") {
        ed.step(k, &history);
    }
    ed.step(Key::ArrowLeft, &history);
    ed.step(Key::ArrowLeft, &history);
    let buffer_before: Vec<char> = ed.buffer.clone();
    let cursor_before = ed.cursor;
    ed.step(Key::ArrowLeft, &history);
    ed.step(Key::ArrowRight, &history);
    assert_eq!(ed.buffer, buffer_before);
    assert_eq!(ed.cursor, cursor_before);
}

#[test]
fn arrows_stop_at_the_ends() {
    let history = no_history();
    let mut ed = Editor::new();
    ed.step(Key::ArrowLeft, &history);
    assert_eq!(ed.cursor, 0);
    ed.step(Key::Printable('a'), &history);
    ed.step(Key::ArrowRight, &history);
    assert_eq!(ed.cursor, 1);
}

#[test]
fn up_at_oldest_entry_is_idempotent() {
    let history = vec!["status".to_string(), "add -A".to_string()];
    let mut ed = Editor::new();
    ed.step(Key::ArrowUp, &history);
    ed.step(Key::ArrowUp, &history);
    assert_eq!(ed.history_cursor, Some(0));
    assert_eq!(ed.line(), "status");
    ed.step(Key::ArrowUp, &history);
    assert_eq!(ed.history_cursor, Some(0));
    assert_eq!(ed.line(), "status");
}

#[test]
fn down_past_newest_clears_the_buffer() {
    let history = vec!["status".to_string()];
    let mut ed = Editor::new();
    ed.step(Key::ArrowUp, &history);
    assert_eq!(ed.line(), "status");
    ed.step(Key::ArrowDown, &history);
    assert_eq!(ed.history_cursor, None);
    assert_eq!(ed.line(), "");
}

#[test]
fn up_with_empty_history_changes_nothing() {
    let history = no_history();
    let mut ed = Editor::new();
    ed.step(Key::Printable('a'), &history);
    ed.step(Key::ArrowUp, &history);
    assert_eq!(ed.history_cursor, None);
    assert_eq!(ed.line(), "a");
}

#[test]
fn typing_leaves_history_browsing() {
    let history = vec!["status".to_string()];
    let mut ed = Editor::new();
    ed.step(Key::ArrowUp, &history);
    assert_eq!(ed.history_cursor, Some(0));
    ed.step(Key::Printable('x'), &history);
    assert_eq!(ed.history_cursor, None);
    assert_eq!(ed.line(), "statusx");
}

#[test]
fn double_interrupt_cancels() {
    let history = no_history();
    let keys = vec![Key::Interrupt, Key::Interrupt];
    assert_eq!(run(keys, &history), ReadResult::Cancelled);
}

#[test]
fn interrupt_with_a_key_between_does_not_cancel() {
    let history = no_history();
    let keys = vec![
        Key::Interrupt,
        Key::Printable('x'),
        Key::Interrupt,
        Key::Enter,
    ];
    assert_eq!(run(keys, &history), ReadResult::Line("x".to_string()));
}

#[test]
fn other_keys_are_ignored() {
    let history = no_history();
    let keys = vec![Key::Printable('a'), Key::Other, Key::Printable('b'), Key::Enter];
    assert_eq!(run(keys, &history), ReadResult::Line("ab".to_string()));
}

#[test]
fn up_twice_then_enter_recalls_the_oldest_entry() {
    let history = vec!["status".to_string(), "add -A".to_string()];
    let keys = vec![Key::ArrowUp, Key::ArrowUp, Key::Enter];
    assert_eq!(run(keys, &history), ReadResult::Line("status".to_string()));
}

#[test]
fn typing_and_erasing_everything_returns_the_empty_line() {
    let history = no_history();
    let mut keys = typed("git");
    keys.push(Key::Backspace);
    keys.push(Key::Backspace);
    keys.push(Key::Backspace);
    keys.push(Key::Enter);
    assert_eq!(run(keys, &history), ReadResult::Line(String::new()));
}

#[test]
fn deleting_inside_the_line_removes_the_right_character() {
    let history = no_history();
    let mut keys = typed("commit");
    keys.push(Key::ArrowLeft);
    keys.push(Key::ArrowLeft);
    keys.push(Key::ArrowLeft);
    keys.push(Key::Backspace);
    keys.push(Key::Enter);
    assert_eq!(run(keys, &history), ReadResult::Line("comit".to_string()));
}

#[test]
fn script_without_terminator_is_pending() {
    let history = no_history();
    assert_eq!(run(typed("abc"), &history), ReadResult::Pending);
}

#[test]
fn read_starts_on_the_entry_the_cursor_names() {
    let history = vec!["status".to_string(), "add -A".to_string()];
    let mut cursor: Option<usize> = Some(1);
    let keys = vec![Key::Enter];
    let r = read_script(&keys, &history, &mut cursor);
    assert_eq!(r, ReadResult::Line("add -A".to_string()));
    assert_eq!(cursor, None);
}

#[test]
fn an_out_of_range_cursor_starts_a_fresh_read() {
    let history = vec!["status".to_string()];
    let mut cursor: Option<usize> = Some(7);
    let keys = vec![Key::Enter];
    let r = read_script(&keys, &history, &mut cursor);
    assert_eq!(r, ReadResult::Line(String::new()));
    assert_eq!(cursor, None);
}

#[test]
fn insertion_at_the_end_repaints_only_the_new_character() {
    let history = no_history();
    let mut ed = Editor::new();
    let (st, out) = ed.step_render(Key::Printable('a'), "> ", &history);
    assert_eq!(st, Step::Continue);
    assert_eq!(out, "a");
}

#[test]
fn insertion_inside_the_line_repaints_the_suffix_and_moves_back() {
    let history = no_history();
    let mut ed = Editor::new();
    for k in typed("ab") {
        ed.step(k, &history);
    }
    ed.step(Key::ArrowLeft, &history);
    let (_, out) = ed.step_render(Key::Printable('c'), "> ", &history);
    assert_eq!(out, "cb\x1b[1D");
    assert_eq!(ed.line(), "acb");
}

#[test]
fn backspace_overwrites_the_tail_and_one_blank() {
    let history = no_history();
    let mut ed = Editor::new();
    for k in typed("commit") {
        ed.step(k, &history);
    }
    ed.step(Key::ArrowLeft, &history);
    ed.step(Key::ArrowLeft, &history);
    ed.step(Key::ArrowLeft, &history);
    let (_, out) = ed.step_render(Key::Backspace, "> ", &history);
    assert_eq!(out, "\u{8}mit \x1b[4D");
    assert_eq!(ed.line(), "comit");
}

#[test]
fn history_recall_clears_and_repaints_the_prompt_line() {
    let history = vec!["status".to_string()];
    let mut ed = Editor::new();
    let (_, out) = ed.step_render(Key::ArrowUp, "> ", &history);
    assert_eq!(out, "\r\x1b[K> status");
}

#[test]
fn arrow_keys_emit_single_column_moves() {
    let history = no_history();
    let mut ed = Editor::new();
    for k in typed("ab") {
        ed.step(k, &history);
    }
    let (_, left) = ed.step_render(Key::ArrowLeft, "> ", &history);
    assert_eq!(left, "\x1b[D");
    let (_, right) = ed.step_render(Key::ArrowRight, "> ", &history);
    assert_eq!(right, "\x1b[C");
}

#[test]
fn enter_emits_a_newline_and_submits() {
    let history = no_history();
    let mut ed = Editor::new();
    let (st, out) = ed.step_render(Key::Enter, "> ", &history);
    assert_eq!(st, Step::Submitted);
    assert_eq!(out, "\n");
}

#[test]
fn the_cancellation_message_comes_only_on_the_second_interrupt() {
    let history = no_history();
    let mut ed = Editor::new();
    let (st1, out1) = ed.step_render(Key::Interrupt, "> ", &history);
    assert_eq!(st1, Step::Continue);
    assert_eq!(out1, "");
    let (st2, out2) = ed.step_render(Key::Interrupt, "> ", &history);
    assert_eq!(st2, Step::Cancelled);
    assert_eq!(out2, "\r\nOperation cancelled.\n");
}
