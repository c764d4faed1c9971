use flyline::content_utils::{color_to_ansi, span_to_ansi, style_to_ansi, StyledSpan};
use flyline::style::{Colour, TextStyle};

#[test]
fn named_colours_give_their_sgr_codes() {
    assert_eq!(color_to_ansi(Colour::Black, false), "30");
    assert_eq!(color_to_ansi(Colour::Red, true), "41");
    assert_eq!(color_to_ansi(Colour::Gray, false), "37");
    assert_eq!(color_to_ansi(Colour::Gray, true), "47");
}

#[test]
fn rgb_and_indexed_colours_give_extended_codes() {
    assert_eq!(color_to_ansi(Colour::Rgb(1, 22, 255), false), "38;2;1;22;255");
    assert_eq!(color_to_ansi(Colour::Rgb(0, 0, 0), true), "48;2;0;0;0");
    assert_eq!(color_to_ansi(Colour::Indexed(208), false), "38;5;208");
    assert_eq!(color_to_ansi(Colour::Indexed(7), true), "48;5;7");
}

#[test]
fn other_colours_give_no_code() {
    assert_eq!(color_to_ansi(Colour::Reset, false), "");
    assert_eq!(color_to_ansi(Colour::LightRed, true), "");
    assert_eq!(color_to_ansi(Colour::White, false), "");
}

#[test]
fn plain_style_gives_empty_sequence() {
    assert_eq!(style_to_ansi(TextStyle::new()), "");
}

#[test]
fn style_joins_colours_then_modifiers() {
    let style = TextStyle::new().fg(Colour::Red).bg(Colour::Indexed(4)).bold();
    assert_eq!(style_to_ansi(style), "\x1b[31;48;5;4;1m");
    let italic = TextStyle::new().add_modifier(flyline::style::ITALIC).add_modifier(flyline::style::UNDERLINED);
    assert_eq!(style_to_ansi(italic), "\x1b[3;4m");
    let dim_only = TextStyle::new().dim();
    assert_eq!(style_to_ansi(dim_only), "");
}

#[test]
fn span_is_wrapped_in_style_and_reset() {
    let span = StyledSpan { content: "hi".to_string(), style: TextStyle::new().fg(Colour::Green) };
    assert_eq!(span_to_ansi(&span), "\x1b[32mhi\x1b[0m");
    let plain = StyledSpan { content: "x".to_string(), style: TextStyle::new() };
    assert_eq!(span_to_ansi(&plain), "x\x1b[0m");
}
