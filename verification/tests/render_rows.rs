use editor::buffer::Buffer;
use editor::render::pad_line;
use editor::session::Editor;

fn session(text: &str, width: usize, height: usize) -> Editor {
    Editor::from_buffer(Buffer::from_text(String::new(), text, width, height))
}

#[test]
fn rows_are_padded_to_the_viewport_width() {
    let e = session("ab\nxy\n", 6, 5);
    let rows = e.render_content_rows();
    assert_eq!(rows.len(), 3);
    assert_eq!(rows[0], "ab    ");
    assert_eq!(rows[1], "xy    ");
    assert_eq!(rows[2], "      "); // the final empty line
}

#[test]
fn missing_lines_show_the_empty_line_marker() {
    let e = session("only", 5, 6);
    let rows = e.render_content_rows();
    assert_eq!(rows.len(), 4);
    assert_eq!(rows[0], "only ");
    assert_eq!(rows[1], "~    ");
    assert_eq!(rows[2], "~    ");
    assert_eq!(rows[3], "~    ");
}

#[test]
fn tabs_expand_to_four_spaces() {
    let e = session("a\tb\n", 10, 5);
    let rows = e.render_content_rows();
    assert_eq!(rows[0], "a    b    ");
}

#[test]
fn long_rows_are_truncated_to_the_width() {
    let e = session("abcdefghij\n", 4, 5);
    let rows = e.render_content_rows();
    assert_eq!(rows[0], "abcd");
}

#[test]
fn the_column_origin_shifts_every_row() {
    let mut e = session("abcdefgh\n12345678\n", 4, 5);
    e.buffer.visual_origin_col = 2;
    let rows = e.render_content_rows();
    assert_eq!(rows[0], "cdef");
    assert_eq!(rows[1], "3456");
}

#[test]
fn the_row_origin_selects_the_visible_lines() {
    let mut e = session("0\n1\n2\n3\n4\n5\n", 3, 4);
    e.buffer.visual_origin_row = 2;
    let rows = e.render_content_rows();
    assert_eq!(rows.len(), 2);
    assert_eq!(rows[0], "2  ");
    assert_eq!(rows[1], "3  ");
}

#[test]
fn under_three_rows_nothing_is_rendered() {
    let e = session("text\n", 10, 2);
    let rows = e.render_content_rows();
    assert_eq!(rows.len(), 0);
}

#[test]
fn render_row_strips_the_line_terminator() {
    let e = session("ab\n", 2, 3);
    assert_eq!(e.render_row(0), "ab");
}

#[test]
fn pad_line_truncates_and_pads() {
    assert_eq!(pad_line("hello", 3), "hel");
    assert_eq!(pad_line("hi", 5), "hi   ");
    assert_eq!(pad_line("", 3), "   ");
    assert_eq!(pad_line("abc", 3), "abc");
}

#[test]
fn pad_line_pads_wide_characters_by_their_cells() {
    // One fullwidth character occupies two cells, so only two spaces follow.
    assert_eq!(pad_line("\u{ff21}", 4), "\u{ff21}  ");
}

#[test]
fn status_lines_are_fitted_to_the_terminal_width() {
    let e = Editor::from_buffer(Buffer::from_text("notes.txt".to_string(), "", 20, 5));
    let status = pad_line(e.buffer.get_status_bar_text().as_str(), 24);
    assert_eq!(status, "Viewing file notes.txt  ");
}
