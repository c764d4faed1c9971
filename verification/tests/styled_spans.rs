use flyline::content_utils::{
    apply_match_indices_to_lines, highlight_matching_indices, middle_truncate_spans, split_line_to_terminal_rows,
    take_prefix_of_spans, take_suffix_of_spans, vec_spans_width, StyledLine, StyledSpan,
};
use flyline::palette::Palette;
use flyline::style::{Colour, TextStyle, BOLD, UNDERLINED};

fn raw(s: &str) -> StyledSpan {
    StyledSpan { content: s.to_string(), style: TextStyle::new() }
}

fn styled(s: &str, c: Colour) -> StyledSpan {
    StyledSpan { content: s.to_string(), style: TextStyle::new().fg(c) }
}

fn line(spans: Vec<StyledSpan>) -> StyledLine {
    StyledLine { spans }
}

fn spans_text(rows: &[StyledLine]) -> Vec<String> {
    rows.iter().map(|row| row.spans.iter().map(|s| s.content.as_str()).collect()).collect()
}

fn texts(spans: &[StyledSpan]) -> Vec<&str> {
    spans.iter().map(|s| s.content.as_str()).collect()
}

#[test]
fn test_split_line_fits_in_one_row() {
    let l = line(vec![raw("hello")]);
    let rows = split_line_to_terminal_rows(&l, 10);
    assert_eq!(rows.len(), 1);
    assert_eq!(spans_text(&rows), vec!["hello"]);
}

#[test]
fn test_split_line_exact_width() {
    let l = line(vec![raw("hello")]);
    let rows = split_line_to_terminal_rows(&l, 5);
    assert_eq!(rows.len(), 1);
    assert_eq!(spans_text(&rows), vec!["hello"]);
}

#[test]
fn test_split_line_wraps_single_span() {
    let l = line(vec![raw("hello world")]);
    let rows = split_line_to_terminal_rows(&l, 6);
    assert_eq!(rows.len(), 2);
    assert_eq!(spans_text(&rows), vec!["hello ", "world"]);
}

#[test]
fn test_split_line_wraps_multiple_spans() {
    let l = line(vec![raw("abc"), raw("de"), raw("fg")]);
    let rows = split_line_to_terminal_rows(&l, 4);
    assert_eq!(rows.len(), 2);
    assert_eq!(spans_text(&rows), vec!["abcd", "efg"]);
}

#[test]
fn test_split_empty_line() {
    let l = line(vec![]);
    let rows = split_line_to_terminal_rows(&l, 10);
    assert_eq!(rows.len(), 1);
    assert_eq!(spans_text(&rows), vec![""]);
}

#[test]
fn test_split_line_zero_available_cols() {
    let l = line(vec![raw("hello")]);
    let rows = split_line_to_terminal_rows(&l, 0);
    assert_eq!(rows.len(), 1);
    assert!(rows[0].spans.is_empty());
}

#[test]
fn test_split_line_long_command() {
    let cmd = "git commit -m \"This is a very long commit message that exceeds the terminal width\"";
    let l = line(vec![raw(cmd)]);
    let available_cols = 40u16;
    let rows = split_line_to_terminal_rows(&l, available_cols);
    for row in &rows {
        let row_width: usize =
            row.spans.iter().map(|s| unicode_width::UnicodeWidthStr::width(s.content.as_str())).sum();
        assert!(row_width <= available_cols as usize, "Row too wide: {row_width}");
    }
    let all_text: String = rows.iter().flat_map(|r| r.spans.iter().map(|s| s.content.as_str())).collect();
    assert_eq!(all_text, cmd);
}

#[test]
fn split_line_keeps_styles_and_wide_clusters() {
    let l = line(vec![styled("ab", Colour::Red), styled("日本", Colour::Blue)]);
    let rows = split_line_to_terminal_rows(&l, 3);
    assert_eq!(spans_text(&rows), vec!["ab", "日", "本"]);
    assert_eq!(rows[0].spans[0].style.fg, Some(Colour::Red));
    assert_eq!(rows[1].spans[0].style.fg, Some(Colour::Blue));
}

#[test]
fn prefix_of_spans_keeps_whole_spans_then_clusters() {
    let spans = vec![styled("abc", Colour::Red), styled("defg", Colour::Green)];
    let p = take_prefix_of_spans(&spans, 5);
    assert_eq!(texts(&p), vec!["abc", "d", "e"]);
    assert_eq!(p[1].style.fg, Some(Colour::Green));
    assert!(take_prefix_of_spans(&spans, 0).is_empty());
    assert_eq!(texts(&take_prefix_of_spans(&spans, 3)), vec!["abc"]);
    assert_eq!(texts(&take_prefix_of_spans(&spans, 99)), vec!["abc", "defg"]);
}

#[test]
fn prefix_of_spans_stops_before_a_wide_cluster() {
    let spans = vec![raw("a日b")];
    assert_eq!(texts(&take_prefix_of_spans(&spans, 2)), vec!["a"]);
    assert_eq!(texts(&take_prefix_of_spans(&spans, 3)), vec!["a", "日"]);
}

#[test]
fn suffix_of_spans_mirrors_prefix() {
    let spans = vec![styled("abc", Colour::Red), styled("defg", Colour::Green)];
    let s = take_suffix_of_spans(&spans, 5);
    assert_eq!(texts(&s), vec!["c", "defg"]);
    assert_eq!(s[0].style.fg, Some(Colour::Red));
    assert_eq!(texts(&take_suffix_of_spans(&spans, 2)), vec!["f", "g"]);
    assert!(take_suffix_of_spans(&spans, 0).is_empty());
}

#[test]
fn spans_width_counts_columns() {
    assert_eq!(vec_spans_width(&vec![raw("ab"), raw("日本")]), 6);
    assert_eq!(vec_spans_width(&vec![]), 0);
}

#[test]
fn middle_truncate_keeps_short_input() {
    let spans = vec![raw("short")];
    assert_eq!(texts(&middle_truncate_spans(&spans, 5)), vec!["short"]);
}

#[test]
fn middle_truncate_puts_ellipsis_in_the_middle() {
    let spans = vec![raw("very_long_name")];
    let t = middle_truncate_spans(&spans, 8);
    let joined: String = t.iter().map(|s| s.content.as_str()).collect();
    assert_eq!(joined, "very…ame");
}

#[test]
fn middle_truncate_small_limits() {
    let spans = vec![styled("abcdef", Colour::Cyan)];
    assert!(middle_truncate_spans(&spans, 0).is_empty());
    let one = middle_truncate_spans(&spans, 1);
    assert_eq!(texts(&one), vec!["…"]);
    assert_eq!(one[0].style.fg, Some(Colour::Cyan));
    let three = middle_truncate_spans(&spans, 3);
    assert_eq!(texts(&three), vec!["a", "…", "f"]);
    assert_eq!(three[1].style.fg, Some(Colour::Cyan));
}

#[test]
fn highlight_marks_matching_characters() {
    let p = Palette::dark();
    let base = TextStyle::new();
    let lines = highlight_matching_indices(&p, "abc\ndef", &vec![1, 4, 5], base);
    assert_eq!(lines.len(), 2);
    assert_eq!(texts(&lines[0].spans), vec!["a", "b", "c"]);
    assert_eq!(lines[0].spans[0].style, base);
    assert_eq!(lines[0].spans[1].style, base.patch(p.matching_char()));
    assert_eq!(texts(&lines[1].spans), vec!["de", "f"]);
    assert_eq!(lines[1].spans[0].style.add_modifier, BOLD | UNDERLINED);
    assert_eq!(lines[1].spans[1].style, base);
}

#[test]
fn highlight_empty_line_has_no_spans() {
    let p = Palette::dark();
    let lines = highlight_matching_indices(&p, "a\n\nb", &vec![], TextStyle::new());
    assert_eq!(lines.len(), 3);
    assert!(lines[1].spans.is_empty());
    assert_eq!(texts(&lines[2].spans), vec!["b"]);
}

#[test]
fn apply_match_indices_counts_across_spans_and_lines() {
    let p = Palette::dark();
    let lines = vec![line(vec![styled("ab", Colour::Red), styled("cd", Colour::Blue)]), line(vec![raw("ef")])];
    let out = apply_match_indices_to_lines(&p, &lines, &vec![1, 2, 6]);
    assert_eq!(texts(&out[0].spans), vec!["a", "b", "c", "d"]);
    assert_eq!(out[0].spans[0].style.fg, Some(Colour::Red));
    assert_eq!(out[0].spans[1].style.fg, Some(Colour::Green));
    assert_eq!(out[0].spans[2].style, TextStyle::new().fg(Colour::Blue).patch(p.matching_char()));
    assert_eq!(out[0].spans[3].style.fg, Some(Colour::Blue));
    assert_eq!(texts(&out[1].spans), vec!["e", "f"]);
    assert_eq!(out[1].spans[0].style.fg, None);
    assert_eq!(out[1].spans[1].style.fg, Some(Colour::Green));
}
