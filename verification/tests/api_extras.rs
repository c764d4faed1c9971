use flyline::prompt_manager::{
    best_range_for_suffix, extend_cwd_match_end_for_trailing_slash,
    extend_cwd_match_start_for_ellipsis,
};
use flyline::tab_completion_context::{get_completion_context, CompType};
use flyline::text_buffer::{SubString, TextBuffer};

#[test]
fn cursor_position_queries() {
    let mut tb = TextBuffer::new("ab  ");
    assert!(tb.is_cursor_at_end());
    assert!(!tb.is_cursor_at_start());
    assert!(tb.is_cursor_at_trimmed_end());
    tb.move_to_start();
    assert!(tb.is_cursor_at_start());
    assert!(!tb.is_cursor_at_trimmed_end());

    let mut lines = TextBuffer::new("a\nb");
    assert!(lines.is_cursor_on_final_line());
    assert_eq!(lines.cursor_row(), 1);
    lines.move_to_start();
    assert!(!lines.is_cursor_on_final_line());
    assert_eq!(lines.cursor_row(), 0);
}

#[test]
fn newline_delete_right_and_replace() {
    let mut tb = TextBuffer::new("ab");
    tb.move_left();
    tb.insert_newline();
    assert_eq!(tb.buffer(), "a\nb");
    tb.delete_right();
    assert_eq!(tb.buffer(), "a\n");
    tb.replace_buffer("echo hi");
    assert_eq!(tb.buffer(), "echo hi");
    assert_eq!(tb.cursor_byte_pos(), 7);
    tb.undo();
    assert_eq!(tb.buffer(), "a\n");
}

#[test]
fn merge_window_setting_keeps_text() {
    let mut tb = TextBuffer::new("x");
    tb.set_undo_merge_window_ms(250);
    assert_eq!(tb.buffer(), "x");
    assert_eq!(tb.cursor_byte_pos(), 1);
}

#[test]
fn select_word_around_cursor() {
    let mut tb = TextBuffer::new("foo bar");
    assert_eq!(tb.select_word(), 4..7);
    assert_eq!(tb.selected_text(), Some("bar".to_string()));
}

#[test]
fn substring_overlap() {
    let a = SubString::from_parts("abc".to_string(), 2);
    let b = SubString::from_parts("de".to_string(), 5);
    let c = SubString::from_parts("z".to_string(), 7);
    assert!(a.overlaps_with(&b));
    assert!(b.overlaps_with(&a));
    assert!(b.overlaps_with(&c));
    assert!(!a.overlaps_with(&c));
}

#[test]
fn cwd_match_widening() {
    assert_eq!(extend_cwd_match_start_for_ellipsis("x...foo", 4), 1);
    assert_eq!(extend_cwd_match_start_for_ellipsis("x…foo", 4), 1);
    assert_eq!(extend_cwd_match_start_for_ellipsis("xfoo", 1), 1);
    assert_eq!(extend_cwd_match_end_for_trailing_slash("foo/ x", 3), 4);
    assert_eq!(extend_cwd_match_end_for_trailing_slash("foo x", 3), 3);
    assert_eq!(best_range_for_suffix("a/foo/bar b ...foo/bar/", "foo/bar"), Some(12..23));
    assert_eq!(best_range_for_suffix("nothing", "foo"), None);
}

#[test]
fn completion_context_accessors() {
    let ctx = get_completion_context("git checkout mai", 14);
    assert_eq!(ctx.word_under_cursor.as_ref(), "mai");
    assert_eq!(ctx.word_left_of_cursor(), "m");
    assert_eq!(ctx.word_right_of_cursor(), "ai");
    let at_end = ctx.with_cursor_at_end_of_wuc();
    assert_eq!(at_end.cursor_byte_pos, 16);
    assert_eq!(at_end.word_left_of_cursor(), "mai");
    assert_eq!(CompType::default().display_name(), "None");
}
