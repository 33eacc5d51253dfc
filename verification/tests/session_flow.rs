use editor::buffer::Buffer;
use editor::keys::{Key, KeyPress};
use editor::session::{prompt_step, Editor, EditorAction, PromptKind, PromptStep};

fn session(text: &str, width: usize, height: usize) -> Editor {
    Editor::from_buffer(Buffer::from_text(String::new(), text, width, height))
}

fn press(code: Key) -> KeyPress {
    KeyPress { code, ctrl: false, press: true }
}

fn ctrl(code: Key) -> KeyPress {
    KeyPress { code, ctrl: true, press: true }
}

#[test]
fn alignment_keeps_the_cursor_inside_the_viewport() {
    let mut e = session("0\n1\n2\n3\n4\n5\n6\n7\n8\n9\n", 10, 5);
    for idx in 0..=e.buffer.len_chars() {
        e.buffer.cursor_idx = idx;
        e.align_cursor();
        let (line, col) = e.buffer.get_logical_cursor_pos();
        assert!(e.buffer.visual_origin_row <= line);
        assert!(line < e.buffer.visual_origin_row + e.buffer.visual_height - 2);
        assert!(e.buffer.visual_origin_col <= col);
        assert!(col < e.buffer.visual_origin_col + e.buffer.visual_width);
    }
}

#[test]
fn alignment_scrolls_right_to_the_cursor_column() {
    // A 10-column viewport and a cursor at logical column 12 put the
    // column origin at 3, so column 12 is the last visible one.
    let mut e = session("abcdefghijklmnop", 10, 5);
    e.buffer.cursor_idx = 12;
    e.align_cursor();
    assert_eq!(e.buffer.visual_origin_col, 3);
    assert_eq!(e.buffer.get_visual_cursor_col(), 9);
}

#[test]
fn alignment_scrolls_back_left_and_up() {
    let mut e = session("aaaaaaaaaaaaaaaa\nb\nc\nd\ne\nf\n", 5, 4);
    e.buffer.cursor_idx = 12;
    e.align_cursor();
    assert_eq!(e.buffer.visual_origin_col, 8);
    e.buffer.cursor_idx = 17; // line 1, column 0
    e.align_cursor();
    assert_eq!(e.buffer.visual_origin_col, 0);
    e.buffer.cursor_idx = 25; // line 5
    e.align_cursor();
    assert_eq!(e.buffer.visual_origin_row, 4);
    e.buffer.cursor_idx = 0;
    e.align_cursor();
    assert_eq!(e.buffer.visual_origin_row, 0);
}

#[test]
fn alignment_does_nothing_under_three_rows() {
    let mut e = session("abcdefgh\nij\n", 4, 2);
    e.buffer.cursor_idx = 7;
    e.align_cursor();
    assert_eq!(e.buffer.visual_origin_row, 0);
    assert_eq!(e.buffer.visual_origin_col, 0);
}

#[test]
fn resize_re_aligns_the_viewport() {
    let mut e = session("0\n1\n2\n3\n4\n5\n6\n7\n8\n9\n", 10, 12);
    e.buffer.cursor_idx = 18; // line 9
    e.align_cursor();
    assert_eq!(e.buffer.visual_origin_row, 0);
    e.handle_resize(10, 5);
    assert_eq!(e.buffer.visual_width, 10);
    assert_eq!(e.buffer.visual_height, 5);
    let (line, _) = e.buffer.get_logical_cursor_pos();
    assert!(e.buffer.visual_origin_row <= line);
    assert!(line < e.buffer.visual_origin_row + 3);
}

#[test]
fn function_ten_quits_without_confirmation() {
    let mut e = session("text", 10, 5);
    e.buffer.dirty = true;
    let a = e.handle_key_event(press(Key::Function(10)));
    assert!(matches!(a, EditorAction::Quit));
}

#[test]
fn quit_on_a_clean_buffer_needs_no_prompt() {
    let mut e = session("text", 10, 5);
    let a = e.handle_key_event(ctrl(Key::Char('d')));
    assert!(matches!(a, EditorAction::Quit));
}

#[test]
fn quit_on_a_dirty_buffer_asks_first() {
    let mut e = session("", 10, 5);
    e.handle_key_event(press(Key::Char('x')));
    let a = e.handle_key_event(ctrl(Key::Char('d')));
    assert!(matches!(a, EditorAction::Prompt(PromptKind::ConfirmExit)));
    let a = e.handle_prompt_result(PromptKind::ConfirmExit, Some("n".to_string()));
    assert!(matches!(a, EditorAction::Stay));
    let a = e.handle_prompt_result(PromptKind::ConfirmExit, Some("yes".to_string()));
    assert!(matches!(a, EditorAction::Quit));
    let a = e.handle_prompt_result(PromptKind::ConfirmExit, Some("Y".to_string()));
    assert!(matches!(a, EditorAction::Quit));
    let a = e.handle_prompt_result(PromptKind::ConfirmExit, None);
    assert!(matches!(a, EditorAction::Stay));
}

#[test]
fn save_with_a_name_writes_directly() {
    let mut e = Editor::from_buffer(Buffer::from_text("f.txt".to_string(), "hi", 10, 5));
    let a = e.handle_key_event(ctrl(Key::Char('s')));
    match a {
        EditorAction::SaveFile { new_name } => assert!(new_name.is_none()),
        _ => panic!("expected a save action"),
    }
    e.note_save_result(true, None);
    assert_eq!(e.footer_text, "File saved.");
    assert!(!e.buffer.dirty);
}

#[test]
fn save_without_a_name_prompts_for_one() {
    let mut e = session("hi", 10, 5);
    let a = e.handle_key_event(ctrl(Key::Char('s')));
    assert!(matches!(a, EditorAction::Prompt(PromptKind::SaveFilename)));
    let a = e.handle_prompt_result(PromptKind::SaveFilename, Some("new.txt".to_string()));
    match a {
        EditorAction::SaveFile { new_name } => assert_eq!(new_name.unwrap(), "new.txt"),
        _ => panic!("expected a save action"),
    }
    assert_eq!(e.buffer.file_path, "new.txt");
    e.note_save_result(true, Some("new.txt".to_string()));
    assert_eq!(e.footer_text, "New file saved as new.txt");
}

#[test]
fn cancelling_the_filename_prompt_cancels_the_save() {
    let mut e = session("hi", 10, 5);
    let a = e.handle_prompt_result(PromptKind::SaveFilename, None);
    assert!(matches!(a, EditorAction::Stay));
    assert_eq!(e.footer_text, "No file name given, cancelled save.");
    assert_eq!(e.buffer.file_path, "");
}

#[test]
fn a_failed_save_reports_and_keeps_the_dirty_flag() {
    let mut e = session("", 10, 5);
    e.handle_key_event(press(Key::Char('x')));
    e.note_save_result(false, None);
    assert_eq!(e.footer_text, "File save failed. Please try again.");
    assert!(e.buffer.dirty);
}

#[test]
fn search_flow_finds_and_reports() {
    let mut e = session("xxfooxx", 10, 5);
    let a = e.handle_key_event(ctrl(Key::Char('f')));
    assert!(matches!(a, EditorAction::Prompt(PromptKind::SearchTarget)));
    let a = e.handle_prompt_result(PromptKind::SearchTarget, Some("foo".to_string()));
    assert!(matches!(a, EditorAction::Stay));
    assert_eq!(e.buffer.cursor_idx, 2);
    assert_eq!(e.footer_text, "Match found.");
}

#[test]
fn search_miss_offers_a_wrap_from_the_top() {
    let mut e = session("foo bar", 10, 5);
    e.buffer.cursor_idx = 5;
    let a = e.handle_prompt_result(PromptKind::SearchTarget, Some("foo".to_string()));
    match a {
        EditorAction::Prompt(PromptKind::SearchFromTop(needle)) => assert_eq!(needle, "foo"),
        _ => panic!("expected the wrap prompt"),
    }
    assert_eq!(e.buffer.cursor_idx, 5);
}

#[test]
fn wrapped_search_runs_from_the_top_on_yes() {
    let mut e = session("xfoo bar", 10, 5);
    e.buffer.cursor_idx = 6;
    let a = e.handle_prompt_result(
        PromptKind::SearchFromTop("foo".to_string()),
        Some("y".to_string()),
    );
    assert!(matches!(a, EditorAction::Stay));
    assert_eq!(e.buffer.cursor_idx, 1);
    assert_eq!(e.footer_text, "Match found.");
}

#[test]
fn wrapped_search_restores_the_cursor_on_a_miss() {
    let mut e = session("bar bar", 10, 5);
    e.buffer.cursor_idx = 5;
    let a = e.handle_prompt_result(
        PromptKind::SearchFromTop("foo".to_string()),
        Some("y".to_string()),
    );
    assert!(matches!(a, EditorAction::Stay));
    assert_eq!(e.buffer.cursor_idx, 5);
    assert_eq!(e.footer_text, "No match found.");
}

#[test]
fn wrapped_search_declined_changes_nothing() {
    let mut e = session("bar", 10, 5);
    e.buffer.cursor_idx = 2;
    let a = e.handle_prompt_result(
        PromptKind::SearchFromTop("foo".to_string()),
        Some("n".to_string()),
    );
    assert!(matches!(a, EditorAction::Stay));
    assert_eq!(e.buffer.cursor_idx, 2);
}

#[test]
fn cancelled_search_reports_in_the_footer() {
    let mut e = session("bar", 10, 5);
    let a = e.handle_prompt_result(PromptKind::SearchTarget, None);
    assert!(matches!(a, EditorAction::Stay));
    assert_eq!(e.footer_text, "Search cancelled.");
    let a = e.handle_prompt_result(PromptKind::SearchFromTop("x".to_string()), None);
    assert!(matches!(a, EditorAction::Stay));
    assert_eq!(e.footer_text, "Search cancelled.");
}

#[test]
fn other_control_keys_fall_through_to_the_buffer() {
    let mut e = session("abcd\nefgh", 10, 5);
    e.buffer.cursor_idx = 6;
    let a = e.handle_key_event(ctrl(Key::End));
    assert!(matches!(a, EditorAction::Stay));
    assert_eq!(e.buffer.cursor_idx, 9);
    let a = e.handle_key_event(ctrl(Key::Home));
    assert!(matches!(a, EditorAction::Stay));
    assert_eq!(e.buffer.cursor_idx, 0);
}

#[test]
fn plain_keys_edit_through_the_session() {
    let mut e = session("", 10, 5);
    let a = e.handle_key_event(press(Key::Char('h')));
    assert!(matches!(a, EditorAction::Stay));
    e.handle_key_event(press(Key::Char('i')));
    assert_eq!(e.buffer.save_text(), "hi");
    assert_eq!(e.footer_text, "");
}

#[test]
fn resize_below_three_rows_keeps_the_origins() {
    let mut e = session("a\nb\nc\nd\n", 10, 6);
    e.buffer.cursor_idx = 6;
    e.align_cursor();
    let row = e.buffer.visual_origin_row;
    e.handle_resize(10, 2);
    assert_eq!(e.buffer.visual_height, 2);
    assert_eq!(e.buffer.visual_origin_row, row);
}

#[test]
fn other_function_keys_are_no_ops() {
    let mut e = session("abc", 10, 5);
    let a = e.handle_key_event(press(Key::Function(1)));
    assert!(matches!(a, EditorAction::Stay));
    assert_eq!(e.buffer.save_text(), "abc");
    assert_eq!(e.buffer.cursor_idx, 0);
}

#[test]
fn unbound_control_characters_fall_through_to_the_buffer() {
    let mut e = session("", 10, 5);
    let a = e.handle_key_event(ctrl(Key::Char('x')));
    assert!(matches!(a, EditorAction::Stay));
    assert_eq!(e.buffer.save_text(), "x");
}

#[test]
fn prompt_input_accumulates_and_commits() {
    let mut input = String::new();
    assert!(matches!(prompt_step(&mut input, press(Key::Char('a'))), PromptStep::Pending));
    assert!(matches!(prompt_step(&mut input, press(Key::Char('b'))), PromptStep::Pending));
    assert_eq!(input, "ab");
    assert!(matches!(prompt_step(&mut input, press(Key::Backspace)), PromptStep::Pending));
    assert_eq!(input, "a");
    assert!(matches!(prompt_step(&mut input, press(Key::Enter)), PromptStep::Submit));
    assert_eq!(input, "a");
}

#[test]
fn prompt_cancels_on_escape_and_ignores_the_rest() {
    let mut input = String::new();
    assert!(matches!(prompt_step(&mut input, press(Key::Backspace)), PromptStep::Pending));
    assert_eq!(input, "");
    assert!(matches!(prompt_step(&mut input, press(Key::Up)), PromptStep::Pending));
    assert!(matches!(
        prompt_step(&mut input, KeyPress { code: Key::Char('z'), ctrl: false, press: false }),
        PromptStep::Pending
    ));
    assert_eq!(input, "");
    assert!(matches!(prompt_step(&mut input, press(Key::Esc)), PromptStep::Cancel));
}
