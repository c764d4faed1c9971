use flyline::content_builder::{ClipboardTypes, Contents, Coord, Rect, SpanTag, Tag, TaggedCell, TaggedLine, TaggedSpan};
use flyline::content_utils::StyledSpan;
use flyline::palette::ButtonState;
use flyline::style::{Colour, TextStyle, BOLD, CROSSED_OUT, DIM, ITALIC, REVERSED, UNDERLINED};
use ratatui_core::buffer::Cell as RCell;
use ratatui_core::style::{Color, Modifier, Style};

fn raw(s: &str) -> StyledSpan {
    StyledSpan { content: s.to_string(), style: TextStyle::new() }
}

fn row_text(contents: &Contents, r: usize) -> String {
    contents.buf[r].iter().map(|c| c.cell.symbol()).collect()
}

#[test]
fn test_basic_write() {
    let mut contents = Contents::new(10);
    let span = TaggedSpan::new(
        StyledSpan { content: "hello".to_string(), style: TextStyle::new().fg(Colour::Red) },
        Tag::Normal,
    );
    contents.write_tagged_span(&span);

    assert_eq!(contents.cursor_position(), Coord::new(0, 5));
    assert_eq!(contents.buf[0][0].tag, Tag::Normal);
    assert_eq!(contents.buf[0][0].cell.symbol(), "h");
    assert_eq!(contents.buf[0][0].cell.style().fg, Some(Colour::Red));
}

#[test]
fn test_wrapping() {
    let mut contents = Contents::new(5);
    let span = TaggedSpan::new(raw("hello world"), Tag::Normal);
    contents.write_tagged_span(&span);

    assert_eq!(contents.height(), 3);
    assert_eq!(contents.cursor_position(), Coord::new(2, 1));
    assert_eq!(row_text(&contents, 0), "hello");
    assert_eq!(row_text(&contents, 1), " worl");
    assert_eq!(row_text(&contents, 2), "d    ");
}

#[test]
fn test_dont_overwrite() {
    let mut contents = Contents::new(10);
    contents.write_tagged_span(&TaggedSpan::new(raw("hello"), Tag::Normal));
    contents.move_cursor_to(0, 0);

    contents.write_tagged_span_dont_overwrite(&TaggedSpan::new(raw("world"), Tag::Command(0)));

    assert_eq!(contents.buf[0][0].tag, Tag::Normal);
    assert_eq!(contents.buf[0][5].tag, Tag::Command(0));
}

#[test]
fn test_multi_width_grapheme() {
    let mut contents = Contents::new(5);
    let span = TaggedSpan::new(raw("🌟🌟🌟"), Tag::Normal);
    contents.write_tagged_span(&span);

    assert_eq!(contents.cursor_position(), Coord::new(1, 2));
    assert_eq!(contents.buf[0][0].cell.symbol(), "🌟");
    assert_eq!(contents.buf[0][1].cell.symbol(), " ");
    assert_eq!(contents.buf[0][2].cell.symbol(), "🌟");
    assert_eq!(contents.buf[0][3].cell.symbol(), " ");
    assert_eq!(contents.buf[0][4].cell.symbol(), " ");
    assert_eq!(contents.buf[1][0].cell.symbol(), "🌟");
    assert_eq!(contents.buf[1][1].cell.symbol(), " ");
}

#[test]
fn test_write_area_wrapping() {
    let mut contents = Contents::new(20);
    let area = Rect { x: 5, y: 0, width: 10, height: 2 };
    let span = TaggedSpan::new(raw("this is a long span that should wrap"), Tag::Normal);

    contents.move_cursor_to(0, 5);
    let completed = contents.write_tagged_span_area(&span, area);

    assert!(!completed);
    assert_eq!(contents.height(), 2);
    let row0 = row_text(&contents, 0);
    let row1 = row_text(&contents, 1);
    assert_eq!(&row0[5..15], "this is a ");
    assert_eq!(&row1[5..15], "long span ");
    assert_eq!(contents.cursor_position().row, 1);
}

#[test]
fn test_write_area_truncation() {
    let mut contents = Contents::new(20);
    let area = Rect { x: 0, y: 0, width: 5, height: 1 };
    let span = TaggedSpan::new(raw("hello world"), Tag::Normal);

    let completed = contents.write_tagged_span_area(&span, area);
    assert!(!completed);
    assert_eq!(contents.cursor_position(), Coord::new(0, 5));
    let row0 = row_text(&contents, 0);
    assert_eq!(&row0[..5], "hello");
    assert_eq!(&row0[5..6], " ");
}

#[test]
fn test_write_area_single_row_wrap() {
    let mut contents = Contents::new(20);
    let area = Rect { x: 5, y: 0, width: 5, height: 1 };
    let span = TaggedSpan::new(raw("1234567"), Tag::Normal);

    contents.move_cursor_to(0, 5);
    let completed = contents.write_tagged_span_area(&span, area);

    assert!(!completed);
    assert_eq!(contents.cursor_position(), Coord::new(0, 10));
    let row0 = row_text(&contents, 0);
    assert_eq!(&row0[5..10], "12345");
    assert_eq!(&row0[10..11], " ");
}

#[test]
fn test_overwrite_with_char() {
    let mut contents = Contents::new(10);
    contents.write_tagged_span(&TaggedSpan::new(raw("hello"), Tag::Normal));
    contents.write_tagged_span(&TaggedSpan::new(raw("🌟"), Tag::Normal));

    assert_eq!(contents.buf[0][0].cell.symbol(), "h");
    assert_eq!(contents.buf[0][5].cell.symbol(), "🌟");
    assert_eq!(contents.buf[0][5].tag, Tag::Normal);
    assert_eq!(contents.buf[0][6].cell.symbol(), " ");
    assert_eq!(contents.buf[0][6].tag, Tag::MultiWidthContinuation);

    contents.overwrite_with_char(0, 4, "…", TextStyle::new(), Tag::Normal);
    assert_eq!(contents.buf[0][4].cell.symbol(), "…");

    contents.overwrite_with_char(0, 6, "…", TextStyle::new(), Tag::Normal);
    assert_eq!(contents.buf[0][5].cell.symbol(), "…");
    assert_eq!(contents.buf[0][6].cell.symbol(), " ");
    assert_eq!(contents.buf[0][6].tag, Tag::Blank);
}

#[test]
fn newline_and_fill_line() {
    let mut contents = Contents::new(4);
    contents.write_tagged_span(&TaggedSpan::new(raw("ab"), Tag::Normal));
    contents.fill_line(Tag::Tooltip);
    assert_eq!(contents.buf[0][2].tag, Tag::Tooltip);
    assert_eq!(contents.buf[0][3].tag, Tag::Tooltip);
    contents.move_cursor_to(0, 0);
    contents.newline();
    assert_eq!(contents.cursor_position(), Coord::new(1, 0));
    assert_eq!(contents.height(), 2);
}

#[test]
fn per_grapheme_tags_and_clipboard() {
    let mut contents = Contents::new(10);
    let tagged = TaggedSpan::per_grapheme(raw("abc"), vec![Tag::Command(0), Tag::Command(1)]);
    contents.write_tagged_span(&tagged);
    assert_eq!(contents.buf[0][0].tag, Tag::Command(0));
    assert_eq!(contents.buf[0][1].tag, Tag::Command(1));
    assert_eq!(contents.buf[0][2].tag, Tag::Normal);
    let clip = TaggedSpan::new(raw("ls -l"), Tag::Clipboard(ClipboardTypes::TutorialGrep));
    contents.write_tagged_span(&clip);
    contents.setup_clipboard(ClipboardTypes::TutorialGrep, " | wc".to_string());
    let stored: Vec<&String> = contents
        .clipboards
        .iter()
        .filter(|(t, _)| *t == ClipboardTypes::TutorialGrep)
        .map(|(_, s)| s)
        .collect();
    assert_eq!(stored, vec!["ls -l | wc"]);
}

#[test]
fn tag_rect_and_delete_rows() {
    let mut contents = Contents::new(3);
    contents.tag_rect(Rect { x: 1, y: 1, width: 5, height: 2 }, Tag::Tutorial);
    assert_eq!(contents.height(), 3);
    assert_eq!(contents.buf[0][1].tag, Tag::Blank);
    assert_eq!(contents.buf[1][0].tag, Tag::Blank);
    assert_eq!(contents.buf[1][1].tag, Tag::Tutorial);
    assert_eq!(contents.buf[2][2].tag, Tag::Tutorial);
    contents.delete_rows(0, 2);
    assert_eq!(contents.height(), 1);
    assert_eq!(contents.buf[0][1].tag, Tag::Tutorial);
}

#[test]
fn tagged_line_width_and_line_writes() {
    let line = TaggedLine {
        spans: vec![TaggedSpan::new(raw("ab"), Tag::Normal), TaggedSpan::new(raw("日"), Tag::Normal)],
    };
    assert_eq!(line.width(), 4);
    let mut contents = Contents::new(3);
    assert!(contents.write_tagged_line(&line, true));
    assert_eq!(contents.cursor_position(), Coord::new(2, 0));
    assert_eq!(row_text(&contents, 1), "日  ");
    let t = SpanTag::Constant(Tag::Normal);
    assert_eq!(t.get(7), Tag::Normal);
}

#[test]
fn frame_characters() {
    let area = Rect { x: 0, y: 0, width: 3, height: 3 };
    assert_eq!(Contents::get_char(0, 0, area, false), '╭');
    assert_eq!(Contents::get_char(2, 2, area, false), '╯');
    assert_eq!(Contents::get_char(1, 0, area, true), '═');
    assert_eq!(Contents::get_char(1, 1, area, true), ' ');
    assert_eq!(Coord::new(1, 5).abs_diff(&Coord::new(3, 2)), 5);
}

#[test]
fn render_block_draws_frame_and_label() {
    let mut contents = Contents::new(8);
    contents.render_block(Rect { x: 0, y: 0, width: 7, height: 3 }, "ok", Tag::TutorialNext, ButtonState::Normal);
    assert_eq!(contents.height(), 3);
    assert_eq!(row_text(&contents, 0), "╭─────╮ ");
    assert_eq!(row_text(&contents, 1), "│ ok  │ ");
    assert_eq!(row_text(&contents, 2), "╰─────╯ ");
    assert_eq!(contents.buf[1][3].tag, Tag::TutorialNext);
    assert_eq!(contents.buf[0][7].tag, Tag::Blank);
}

#[test]
fn render_block_selected_uses_double_lines() {
    let mut contents = Contents::new(4);
    contents.render_block(Rect { x: 0, y: 0, width: 4, height: 2 }, "", Tag::Tutorial, ButtonState::Hovered);
    assert_eq!(row_text(&contents, 0), "╔══╗");
    assert_eq!(row_text(&contents, 1), "╚══╝");
    assert_eq!(contents.buf[0][0].cell.modifier & REVERSED, REVERSED);
}

#[test]
fn render_border_with_connector() {
    let mut contents = Contents::new(6);
    contents.write_tagged_span(&TaggedSpan::new(raw("ab"), Tag::Normal));
    let before = contents.cursor_position();
    contents.render_border(Rect { x: 0, y: 2, width: 5, height: 3 }, Tag::Tooltip, TextStyle::new(), false, Some(Coord::new(0, 2)));
    assert_eq!(contents.cursor_position(), before);
    assert_eq!(row_text(&contents, 1), "  │   ");
    assert_eq!(row_text(&contents, 2), "╭─┴─╮ ");
    assert_eq!(row_text(&contents, 3), "│   │ ");
    assert_eq!(row_text(&contents, 4), "╰───╯ ");
}

#[test]
fn render_border_too_small_draws_nothing() {
    let mut contents = Contents::new(4);
    contents.render_border(Rect { x: 0, y: 0, width: 1, height: 3 }, Tag::Tooltip, TextStyle::new(), false, None);
    assert_eq!(contents.height(), 0);
}

#[test]
fn lrjustified_fills_between_parts() {
    let mut contents = Contents::new(10);
    let l = TaggedLine { spans: vec![TaggedSpan::new(raw("ab"), Tag::Normal)] };
    let fill = TaggedLine { spans: vec![TaggedSpan::new(raw("."), Tag::Tooltip)] };
    let r = TaggedLine { spans: vec![TaggedSpan::new(raw("xy"), Tag::Normal)] };
    contents.write_tagged_line_lrjustified(&l, &fill, &r, false);
    assert_eq!(row_text(&contents, 0), "ab......xy");
    assert_eq!(contents.buf[0][4].tag, Tag::Tooltip);
    assert_eq!(contents.cursor_position(), Coord::new(0, 10));
}

#[test]
fn lrjustified_plain_space_fill_only_moves() {
    let mut contents = Contents::new(8);
    let l = TaggedLine { spans: vec![TaggedSpan::new(raw("a"), Tag::Normal)] };
    let fill = TaggedLine { spans: vec![TaggedSpan::new(raw(" "), Tag::Tooltip)] };
    let r = TaggedLine { spans: vec![TaggedSpan::new(raw("z"), Tag::Normal)] };
    contents.write_tagged_line_lrjustified(&l, &fill, &r, true);
    assert_eq!(row_text(&contents, 0), "a      z");
    assert_eq!(contents.buf[0][3].tag, Tag::Blank);
    assert_eq!(contents.cursor_position(), Coord::new(0, 1));
}

#[test]
fn text_style_model_matches_renderer() {
    assert_eq!(BOLD, Modifier::BOLD.bits());
    assert_eq!(DIM, Modifier::DIM.bits());
    assert_eq!(ITALIC, Modifier::ITALIC.bits());
    assert_eq!(UNDERLINED, Modifier::UNDERLINED.bits());
    assert_eq!(REVERSED, Modifier::REVERSED.bits());
    assert_eq!(CROSSED_OUT, Modifier::CROSSED_OUT.bits());
    let a = TextStyle::new().fg(Colour::Red).add_modifier(BOLD | ITALIC);
    let b = TextStyle::new().bg(Colour::Blue).remove_modifier(BOLD).add_modifier(DIM);
    let p = a.patch(b);
    let ra = Style::default().fg(Color::Red).add_modifier(Modifier::BOLD | Modifier::ITALIC);
    let rb = Style::default().bg(Color::Blue).remove_modifier(Modifier::BOLD).add_modifier(Modifier::DIM);
    let rp = ra.patch(rb);
    assert_eq!(p.add_modifier, rp.add_modifier.bits());
    assert_eq!(p.sub_modifier, rp.sub_modifier.bits());
    assert_eq!(p.fg, Some(Colour::Red));
    assert_eq!(rp.fg, Some(Color::Red));
    assert_eq!(p.bg, Some(Colour::Blue));
    assert_eq!(rp.bg, Some(Color::Blue));
}

#[test]
fn cell_merge_matches_renderer() {
    let mut ours = TaggedCell::blank();
    ours.update("x", TextStyle::new().fg(Colour::Green).add_modifier(BOLD), Tag::Normal);
    ours.update("y", TextStyle::new().remove_modifier(BOLD).add_modifier(ITALIC), Tag::Normal);
    let mut theirs = RCell::default();
    theirs.set_symbol("x").set_style(Style::default().fg(Color::Green).add_modifier(Modifier::BOLD));
    theirs.set_symbol("y").set_style(Style::default().remove_modifier(Modifier::BOLD).add_modifier(Modifier::ITALIC));
    assert_eq!(ours.cell.symbol(), theirs.symbol());
    assert_eq!(ours.cell.modifier, theirs.modifier.bits());
    assert_eq!(ours.cell.fg, Colour::Green);
    assert_eq!(theirs.fg, Color::Green);
}
