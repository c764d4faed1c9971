//! Styles from `LS_COLORS`: the colour and font settings that a file-type
//! entry of `LS_COLORS` gives, and the text style a completion for such a
//! file is drawn in.

use crate::style::{
    Colour, TextStyle, BOLD, CROSSED_OUT, DIM, HIDDEN, ITALIC, RAPID_BLINK, REVERSED, SLOW_BLINK, UNDERLINED,
};
use vstd::prelude::*;

verus! {

/// A colour of an `LS_COLORS` entry: one of the eight ANSI colours, their
/// bright forms, an index into the 256-colour table or an RGB triple.
#[derive(Debug, Clone, Copy, PartialEq, Eq, Structural)]
pub enum LsColor {
    Black,
    Red,
    Green,
    Yellow,
    Blue,
    Magenta,
    Cyan,
    White,
    Fixed(u8),
    RGB(u8, u8, u8),
    BrightBlack,
    BrightRed,
    BrightGreen,
    BrightYellow,
    BrightBlue,
    BrightMagenta,
    BrightCyan,
    BrightWhite,
}

/// The font settings of an `LS_COLORS` entry.
#[derive(Debug, Clone, Copy, PartialEq, Eq, Structural)]
pub struct LsFontStyle {
    pub bold: bool,
    pub dimmed: bool,
    pub italic: bool,
    pub underline: bool,
    pub slow_blink: bool,
    pub rapid_blink: bool,
    pub reverse: bool,
    pub hidden: bool,
    pub strikethrough: bool,
}

/// An `LS_COLORS` entry: its font settings and its colours.
#[derive(Debug, Clone, Copy, PartialEq, Eq, Structural)]
pub struct LsStyle {
    pub font_style: LsFontStyle,
    pub foreground: Option<LsColor>,
    pub background: Option<LsColor>,
}

/// The terminal colour an `LS_COLORS` colour is drawn in: the plain colours
/// as themselves, bright black as dark gray, bright white as gray, the other
/// bright colours as their light forms.
pub open spec fn ls_colour(c: LsColor) -> Colour {
    match c {
        LsColor::Black => Colour::Black,
        LsColor::Red => Colour::Red,
        LsColor::Green => Colour::Green,
        LsColor::Yellow => Colour::Yellow,
        LsColor::Blue => Colour::Blue,
        LsColor::Magenta => Colour::Magenta,
        LsColor::Cyan => Colour::Cyan,
        LsColor::White => Colour::White,
        LsColor::BrightBlack => Colour::DarkGray,
        LsColor::BrightRed => Colour::LightRed,
        LsColor::BrightGreen => Colour::LightGreen,
        LsColor::BrightYellow => Colour::LightYellow,
        LsColor::BrightBlue => Colour::LightBlue,
        LsColor::BrightMagenta => Colour::LightMagenta,
        LsColor::BrightCyan => Colour::LightCyan,
        LsColor::BrightWhite => Colour::Gray,
        LsColor::Fixed(n) => Colour::Indexed(n),
        LsColor::RGB(r, g, b) => Colour::Rgb(r, g, b),
    }
}

/// `m` when `on`, else no modifier.
pub open spec fn flag(on: bool, m: u16) -> u16 {
    if on {
        m
    } else {
        0
    }
}

/// The text modifiers the font settings turn on, each setting giving its
/// own modifier.
pub open spec fn font_modifiers(fs: LsFontStyle) -> u16 {
    flag(fs.bold, BOLD) | flag(fs.dimmed, DIM) | flag(fs.italic, ITALIC) | flag(fs.underline, UNDERLINED) | flag(
        fs.slow_blink,
        SLOW_BLINK,
    ) | flag(fs.rapid_blink, RAPID_BLINK) | flag(fs.reverse, REVERSED) | flag(fs.hidden, HIDDEN) | flag(
        fs.strikethrough,
        CROSSED_OUT,
    )
}

/// The text style of an `LS_COLORS` entry: its colours as terminal colours,
/// its font settings as the modifiers it adds, nothing removed and no
/// underline colour.
pub open spec fn ls_text_style(s: LsStyle) -> TextStyle {
    TextStyle {
        fg: match s.foreground {
            Some(c) => Some(ls_colour(c)),
            None => None,
        },
        bg: match s.background {
            Some(c) => Some(ls_colour(c)),
            None => None,
        },
        underline_color: None,
        add_modifier: font_modifiers(s.font_style),
        sub_modifier: 0,
    }
}

/// Each font setting shows in the modifiers as its own bit, and the
/// modifiers hold no other bit.
pub proof fn font_modifiers_are_the_settings(fs: LsFontStyle)
    ensures
        (font_modifiers(fs) & BOLD == BOLD) == fs.bold,
        (font_modifiers(fs) & DIM == DIM) == fs.dimmed,
        (font_modifiers(fs) & ITALIC == ITALIC) == fs.italic,
        (font_modifiers(fs) & UNDERLINED == UNDERLINED) == fs.underline,
        (font_modifiers(fs) & SLOW_BLINK == SLOW_BLINK) == fs.slow_blink,
        (font_modifiers(fs) & RAPID_BLINK == RAPID_BLINK) == fs.rapid_blink,
        (font_modifiers(fs) & REVERSED == REVERSED) == fs.reverse,
        (font_modifiers(fs) & HIDDEN == HIDDEN) == fs.hidden,
        (font_modifiers(fs) & CROSSED_OUT == CROSSED_OUT) == fs.strikethrough,
        font_modifiers(fs) < 512,
{
    let (a, b, c, d, e, f, g, h, i) = (
        fs.bold,
        fs.dimmed,
        fs.italic,
        fs.underline,
        fs.slow_blink,
        fs.rapid_blink,
        fs.reverse,
        fs.hidden,
        fs.strikethrough,
    );
    let m: u16 = (if a { 1u16 } else { 0u16 }) | (if b { 2u16 } else { 0u16 }) | (if c { 4u16 } else { 0u16 }) | (
    if d {
        8u16
    } else {
        0u16
    }) | (if e { 16u16 } else { 0u16 }) | (if f { 32u16 } else { 0u16 }) | (if g { 64u16 } else { 0u16 }) | (if h {
        128u16
    } else {
        0u16
    }) | (if i { 256u16 } else { 0u16 });
    assert(m == font_modifiers(fs));
    assert({
        &&& (m & 1 == 1) == a
        &&& (m & 2 == 2) == b
        &&& (m & 4 == 4) == c
        &&& (m & 8 == 8) == d
        &&& (m & 16 == 16) == e
        &&& (m & 32 == 32) == f
        &&& (m & 64 == 64) == g
        &&& (m & 128 == 128) == h
        &&& (m & 256 == 256) == i
        &&& m < 512
    }) by (bit_vector)
        requires
            m == (if a { 1u16 } else { 0u16 }) | (if b { 2u16 } else { 0u16 }) | (if c { 4u16 } else { 0u16 }) | (
            if d {
                8u16
            } else {
                0u16
            }) | (if e { 16u16 } else { 0u16 }) | (if f { 32u16 } else { 0u16 }) | (if g { 64u16 } else { 0u16 })
                | (if h { 128u16 } else { 0u16 }) | (if i { 256u16 } else { 0u16 }),
    ;
}

/// The terminal colour for an `LS_COLORS` colour (see `ls_colour`).
pub fn lscolors_color_to_ratatui(color: LsColor) -> (c: Colour)
    ensures
        c == ls_colour(color),
{
    match color {
        LsColor::Black => Colour::Black,
        LsColor::Red => Colour::Red,
        LsColor::Green => Colour::Green,
        LsColor::Yellow => Colour::Yellow,
        LsColor::Blue => Colour::Blue,
        LsColor::Magenta => Colour::Magenta,
        LsColor::Cyan => Colour::Cyan,
        LsColor::White => Colour::White,
        LsColor::BrightBlack => Colour::DarkGray,
        LsColor::BrightRed => Colour::LightRed,
        LsColor::BrightGreen => Colour::LightGreen,
        LsColor::BrightYellow => Colour::LightYellow,
        LsColor::BrightBlue => Colour::LightBlue,
        LsColor::BrightMagenta => Colour::LightMagenta,
        LsColor::BrightCyan => Colour::LightCyan,
        LsColor::BrightWhite => Colour::Gray,
        LsColor::Fixed(n) => Colour::Indexed(n),
        LsColor::RGB(r, g, b) => Colour::Rgb(r, g, b),
    }
}

/// The text style of an `LS_COLORS` entry (see `ls_text_style`): starting
/// from the plain style, the colours it sets, then each modifier its font
/// settings turn on.
pub fn lscolors_style_to_ratatui(style: &LsStyle) -> (s: TextStyle)
    ensures
        s == ls_text_style(*style),
{
    let mut out = TextStyle::new();
    if let Some(fg) = style.foreground {
        out = out.fg(lscolors_color_to_ratatui(fg));
    }
    if let Some(bg) = style.background {
        out = out.bg(lscolors_color_to_ratatui(bg));
    }
    let fs = &style.font_style;
    let m: u16 = (if fs.bold { BOLD } else { 0 }) | (if fs.dimmed { DIM } else { 0 }) | (if fs.italic {
        ITALIC
    } else {
        0
    }) | (if fs.underline { UNDERLINED } else { 0 }) | (if fs.slow_blink { SLOW_BLINK } else { 0 }) | (
    if fs.rapid_blink {
        RAPID_BLINK
    } else {
        0
    }) | (if fs.reverse { REVERSED } else { 0 }) | (if fs.hidden { HIDDEN } else { 0 }) | (if fs.strikethrough {
        CROSSED_OUT
    } else {
        0
    });
    let out = out.add_modifier(m);
    assert(0u16 | m == m) by (bit_vector);
    assert(0u16 & !m == 0) by (bit_vector);
    out
}

} // verus!
