use flyline::palette::{
    parse_cursor_style_str, parse_str_to_style, possible_style_name_completions, style_kind_from_name, ButtonState,
    CursorStyleConfig, Palette, PaletteStyleKind,
};
use flyline::settings::ColourTheme;
use flyline::style::{Colour, TextStyle, BOLD, DIM, ITALIC, REVERSED, UNDERLINED};

fn values(current: &str) -> Vec<String> {
    possible_style_name_completions(current).into_iter().map(|c| c.0).collect()
}

#[test]
fn test_possible_style_name_completions_empty_yields_all() {
    let values = values("");
    assert!(values.contains(&"recognised-command=NO_SUFFIX".to_string()));
    assert!(values.contains(&"inline-suggestion=NO_SUFFIX".to_string()));
    assert!(values.contains(&"bash-reserved=NO_SUFFIX".to_string()));
    assert_eq!(values.len(), PaletteStyleKind::all().len());
}

#[test]
fn test_possible_style_name_completions_partial_filters() {
    let values = values("inline");
    assert!(values.contains(&"inline-suggestion=NO_SUFFIX".to_string()));
    assert!(!values.contains(&"recognised-command=NO_SUFFIX".to_string()));
}

#[test]
fn test_possible_style_name_completions_after_equals_returns_empty() {
    let values = possible_style_name_completions("inline-suggestion=bold");
    assert!(values.is_empty());
}

#[test]
fn test_possible_style_name_completions_have_help() {
    let candidates = possible_style_name_completions("recognised");
    assert!(!candidates.is_empty());
    for c in &candidates {
        assert!(!c.1.is_empty());
    }
}

#[test]
fn style_completions_ignore_case_and_keep_order() {
    assert_eq!(
        values("RAINBOW"),
        vec![
            "rainbow-bracket1=NO_SUFFIX",
            "rainbow-bracket2=NO_SUFFIX",
            "rainbow-bracket3=NO_SUFFIX",
            "rainbow-bracket4=NO_SUFFIX"
        ]
    );
    assert_eq!(values("zzz"), Vec::<String>::new());
}

#[test]
fn style_names_parse_back() {
    for k in PaletteStyleKind::all() {
        assert_eq!(style_kind_from_name(k.name()), Some(k));
    }
    assert_eq!(style_kind_from_name("markdown-heading2"), Some(PaletteStyleKind::MarkdownHeading2));
    assert_eq!(style_kind_from_name("Comment"), None);
    assert_eq!(style_kind_from_name(""), None);
    assert_eq!(
        PaletteStyleKind::EnvVar.message(),
        "Syntax highlighting for environment variable references (e.g. $HOME)"
    );
}

#[test]
fn palette_dark_preset_values() {
    let p = Palette::dark();
    assert_eq!(p.recognised_command(), TextStyle::new().fg(Colour::Green));
    assert_eq!(p.secondary_text(), TextStyle::new().add_modifier(DIM));
    let m = p.matching_char();
    assert_eq!(m.fg, Some(Colour::Green));
    assert_eq!(m.add_modifier, BOLD | UNDERLINED);
    assert_eq!(m.sub_modifier, 0);
    assert_eq!(p.selected_text().bg, Some(Colour::Rgb(255, 102, 102)));
    assert_eq!(p.normal_text(), TextStyle::new());
}

#[test]
fn palette_light_preset_values() {
    let p = Palette::light();
    let s = p.secondary_text();
    assert_eq!(s.add_modifier, DIM | BOLD);
    assert_eq!(p.key_sequence_style(), TextStyle::new().fg(Colour::DarkGray));
    assert_eq!(p.comment().fg, Some(Colour::Gray));
    assert_eq!(p.comment().add_modifier, ITALIC);
}

#[test]
fn palette_default_is_dark() {
    let d = Palette::default();
    let k = Palette::dark();
    assert_eq!(d.env_var(), k.env_var());
    assert_eq!(d.rainbow_bracket(0), k.rainbow_bracket(0));
}

#[test]
fn palette_set_then_get() {
    let mut p = Palette::dark();
    let style = TextStyle::new().fg(Colour::Indexed(42)).bold();
    p.set(PaletteStyleKind::EnvVar, style);
    assert_eq!(p.env_var(), style);
    assert_eq!(p.comment(), Palette::dark().comment());
    p.set(PaletteStyleKind::RainbowBracket3, style);
    assert_eq!(p.rainbow_bracket(2), style);
    assert_eq!(p.rainbow_bracket(6), style);
}

#[test]
fn palette_rainbow_cycles_by_four() {
    let p = Palette::dark();
    assert_eq!(p.rainbow_bracket(0).fg, Some(Colour::Rgb(255, 215, 0)));
    assert_eq!(p.rainbow_bracket(3).fg, Some(Colour::Rgb(100, 230, 150)));
    assert_eq!(p.rainbow_bracket(4), p.rainbow_bracket(0));
    assert_eq!(p.rainbow_bracket(9), p.rainbow_bracket(1));
}

#[test]
fn palette_apply_theme_resets_slots() {
    let mut p = Palette::dark();
    p.set(PaletteStyleKind::NormalText, TextStyle::new().fg(Colour::Red));
    p.apply_theme(ColourTheme::Light);
    assert_eq!(p.normal_text(), TextStyle::new());
    assert_eq!(p.env_var(), TextStyle::new().fg(Colour::Blue));
    p.apply_theme(ColourTheme::Dark);
    assert_eq!(p.env_var(), TextStyle::new().fg(Colour::Cyan));
}

#[test]
fn palette_button_styles() {
    let base = TextStyle::new().fg(Colour::Green);
    assert_eq!(Palette::apply_button_style(base, ButtonState::Normal), base);
    assert_eq!(Palette::apply_button_style(base, ButtonState::Hovered).add_modifier, REVERSED);
    let pressed = Palette::apply_button_style(base, ButtonState::Depressed);
    assert_eq!(pressed.fg, Some(Colour::Black));
    assert_eq!(pressed.bg, Some(Colour::Rgb(100, 100, 100)));
    assert_eq!(pressed.add_modifier, BOLD);
    assert_eq!(Palette::convert_to_highlighted(base).add_modifier, REVERSED);
    assert_eq!(Palette::cursor_style(7), TextStyle::new().bg(Colour::Rgb(7, 7, 7)));
}

#[test]
fn palette_convert_to_selected_lays_selection_over() {
    let p = Palette::dark();
    let base = TextStyle::new().fg(Colour::Green).add_modifier(ITALIC);
    let s = p.convert_to_selected(base);
    assert_eq!(s.fg, Some(Colour::White));
    assert_eq!(s.bg, Some(Colour::Rgb(255, 102, 102)));
    assert_eq!(s.add_modifier, ITALIC);
}

#[test]
fn text_style_patch_removes_and_adds_modifiers() {
    let base = TextStyle::new().add_modifier(BOLD | ITALIC);
    let over = TextStyle::new().remove_modifier(BOLD).add_modifier(DIM);
    let s = base.patch(over);
    assert_eq!(s.add_modifier, ITALIC | DIM);
    assert_eq!(s.sub_modifier, BOLD);
    assert_eq!(s.fg, None);
}

#[test]
fn parse_str_to_style_colour_and_attribute() {
    let s = parse_str_to_style("bold red").unwrap();
    assert_eq!(s, TextStyle::new().fg(Colour::Indexed(1)).add_modifier(BOLD));
}

#[test]
fn parse_str_to_style_background_and_rgb() {
    let s = parse_str_to_style("italic #ff8000 on white").unwrap();
    assert_eq!(s.fg, Some(Colour::Rgb(255, 128, 0)));
    assert_eq!(s.bg, Some(Colour::Indexed(7)));
    assert_eq!(s.add_modifier, ITALIC);
}

#[test]
fn parse_str_to_style_default_and_disabled() {
    assert_eq!(parse_str_to_style("default").unwrap(), TextStyle::new().fg(Colour::Reset));
    assert_eq!(parse_str_to_style("not bold").unwrap(), TextStyle::new());
    assert_eq!(parse_str_to_style("").unwrap(), TextStyle::new());
}

#[test]
fn parse_str_to_style_rejects_unknown_word() {
    let e = parse_str_to_style("bold sparkly").unwrap_err();
    assert!(e.contains("sparkly"));
    assert!(parse_str_to_style("red on").is_err());
}

#[test]
fn parse_cursor_style_str_fixed_looks() {
    assert_eq!(parse_cursor_style_str("REVERSE"), Ok(CursorStyleConfig::Reverse));
    assert_eq!(parse_cursor_style_str("Default"), Ok(CursorStyleConfig::Default));
}

#[test]
fn parse_cursor_style_str_single_colour_is_background() {
    assert_eq!(
        parse_cursor_style_str("red"),
        Ok(CursorStyleConfig::Custom(TextStyle::new().bg(Colour::Indexed(1))))
    );
    assert_eq!(
        parse_cursor_style_str("blue on white bold"),
        Ok(CursorStyleConfig::Custom(TextStyle::new().fg(Colour::Indexed(4)).bg(Colour::Indexed(7)).bold()))
    );
    assert!(parse_cursor_style_str("on").is_err());
}
