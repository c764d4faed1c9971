use flyline::ls_style::{lscolors_color_to_ratatui, lscolors_style_to_ratatui, LsColor, LsFontStyle, LsStyle};
use flyline::style::{Colour, TextStyle, BOLD, CROSSED_OUT, DIM, ITALIC, UNDERLINED};

fn no_font() -> LsFontStyle {
    LsFontStyle {
        bold: false,
        dimmed: false,
        italic: false,
        underline: false,
        slow_blink: false,
        rapid_blink: false,
        reverse: false,
        hidden: false,
        strikethrough: false,
    }
}

#[test]
fn plain_colours_map_to_themselves() {
    assert_eq!(lscolors_color_to_ratatui(LsColor::Blue), Colour::Blue);
    assert_eq!(lscolors_color_to_ratatui(LsColor::White), Colour::White);
}

#[test]
fn bright_colours_map_to_light_ones() {
    assert_eq!(lscolors_color_to_ratatui(LsColor::BrightBlack), Colour::DarkGray);
    assert_eq!(lscolors_color_to_ratatui(LsColor::BrightRed), Colour::LightRed);
    assert_eq!(lscolors_color_to_ratatui(LsColor::BrightWhite), Colour::Gray);
}

#[test]
fn fixed_and_rgb_colours_keep_their_values() {
    assert_eq!(lscolors_color_to_ratatui(LsColor::Fixed(208)), Colour::Indexed(208));
    assert_eq!(lscolors_color_to_ratatui(LsColor::RGB(1, 2, 3)), Colour::Rgb(1, 2, 3));
}

#[test]
fn empty_entry_gives_plain_style() {
    let s = LsStyle { font_style: no_font(), foreground: None, background: None };
    assert_eq!(lscolors_style_to_ratatui(&s), TextStyle::new());
}

#[test]
fn directory_entry_is_bold_blue() {
    let s = LsStyle { font_style: LsFontStyle { bold: true, ..no_font() }, foreground: Some(LsColor::Blue), background: None };
    let t = lscolors_style_to_ratatui(&s);
    assert_eq!(t.fg, Some(Colour::Blue));
    assert_eq!(t.bg, None);
    assert_eq!(t.add_modifier, BOLD);
    assert_eq!(t.sub_modifier, 0);
}

#[test]
fn every_font_setting_adds_its_modifier() {
    let fs = LsFontStyle { dimmed: true, italic: true, underline: true, strikethrough: true, ..no_font() };
    let s = LsStyle { font_style: fs, foreground: Some(LsColor::BrightGreen), background: Some(LsColor::Fixed(0)) };
    let t = lscolors_style_to_ratatui(&s);
    assert_eq!(t.add_modifier, DIM | ITALIC | UNDERLINED | CROSSED_OUT);
    assert_eq!(t.fg, Some(Colour::LightGreen));
    assert_eq!(t.bg, Some(Colour::Indexed(0)));
}

#[test]
fn all_font_settings_give_all_modifiers() {
    let fs = LsFontStyle {
        bold: true,
        dimmed: true,
        italic: true,
        underline: true,
        slow_blink: true,
        rapid_blink: true,
        reverse: true,
        hidden: true,
        strikethrough: true,
    };
    let s = LsStyle { font_style: fs, foreground: None, background: None };
    assert_eq!(lscolors_style_to_ratatui(&s).add_modifier, 0b1_1111_1111);
}
