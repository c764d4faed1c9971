//! Terminal text styles as plain values: a colour for the foreground, the
//! background and underlines, and the text modifiers a style adds and
//! removes. This is the style that the palette and the styled spans carry;
//! the terminal front end turns it into the renderer's own style type.

use vstd::prelude::*;

verus! {

/// A terminal colour: the terminal's default, one of the sixteen named ANSI
/// colours, an RGB triple or an index into the 256-colour table.
#[derive(Debug, Clone, Copy, PartialEq, Eq, Structural)]
pub enum Colour {
    Reset,
    Black,
    Red,
    Green,
    Yellow,
    Blue,
    Magenta,
    Cyan,
    Gray,
    DarkGray,
    LightRed,
    LightGreen,
    LightYellow,
    LightBlue,
    LightMagenta,
    LightCyan,
    White,
    Rgb(u8, u8, u8),
    Indexed(u8),
}

/// Bold text.
pub const BOLD: u16 = 0b0000_0000_0001;
/// Dimmed text.
pub const DIM: u16 = 0b0000_0000_0010;
/// Italic text.
pub const ITALIC: u16 = 0b0000_0000_0100;
/// Underlined text.
pub const UNDERLINED: u16 = 0b0000_0000_1000;
/// Slowly blinking text.
pub const SLOW_BLINK: u16 = 0b0000_0001_0000;
/// Rapidly blinking text.
pub const RAPID_BLINK: u16 = 0b0000_0010_0000;
/// Reverse video.
pub const REVERSED: u16 = 0b0000_0100_0000;
/// Hidden text.
pub const HIDDEN: u16 = 0b0000_1000_0000;
/// Struck-through text.
pub const CROSSED_OUT: u16 = 0b0001_0000_0000;

/// A text style. A colour that is `None` leaves whatever is beneath the
/// styled text as it is; `add_modifier` holds the modifiers the style turns
/// on and `sub_modifier` those it turns off.
#[derive(Debug, Clone, Copy, PartialEq, Eq, Structural)]
pub struct TextStyle {
    pub fg: Option<Colour>,
    pub bg: Option<Colour>,
    pub underline_color: Option<Colour>,
    pub add_modifier: u16,
    pub sub_modifier: u16,
}

/// The style that sets nothing.
pub open spec fn plain_style() -> TextStyle {
    TextStyle { fg: None, bg: None, underline_color: None, add_modifier: 0, sub_modifier: 0 }
}

/// `s` with `m` turned on: added to the modifiers it adds and dropped from
/// those it removes.
pub open spec fn with_modifier(s: TextStyle, m: u16) -> TextStyle {
    TextStyle { add_modifier: s.add_modifier | m, sub_modifier: s.sub_modifier & !m, ..s }
}

/// `s` with `m` turned off.
pub open spec fn without_modifier(s: TextStyle, m: u16) -> TextStyle {
    TextStyle { add_modifier: s.add_modifier & !m, sub_modifier: s.sub_modifier | m, ..s }
}

/// `other` laid over `base`: the colours `other` sets win, the modifiers
/// `other` removes are taken from the ones `base` adds and those `other`
/// adds are taken from the ones `base` removes.
pub open spec fn patched(base: TextStyle, other: TextStyle) -> TextStyle {
    TextStyle {
        fg: if other.fg is Some { other.fg } else { base.fg },
        bg: if other.bg is Some { other.bg } else { base.bg },
        underline_color: if other.underline_color is Some {
            other.underline_color
        } else {
            base.underline_color
        },
        add_modifier: (base.add_modifier & !other.sub_modifier) | other.add_modifier,
        sub_modifier: (base.sub_modifier & !other.add_modifier) | other.sub_modifier,
    }
}

impl TextStyle {
    /// The style that sets nothing.
    pub fn new() -> (s: TextStyle)
        ensures
            s == plain_style(),
    {
        TextStyle { fg: None, bg: None, underline_color: None, add_modifier: 0, sub_modifier: 0 }
    }

    /// This style with foreground `c`.
    pub fn fg(self, c: Colour) -> (s: TextStyle)
        ensures
            s == (TextStyle { fg: Some(c), ..self }),
    {
        TextStyle { fg: Some(c), ..self }
    }

    /// This style with background `c`.
    pub fn bg(self, c: Colour) -> (s: TextStyle)
        ensures
            s == (TextStyle { bg: Some(c), ..self }),
    {
        TextStyle { bg: Some(c), ..self }
    }

    /// This style with the modifiers `m` turned on.
    pub fn add_modifier(self, m: u16) -> (s: TextStyle)
        ensures
            s == with_modifier(self, m),
    {
        TextStyle { add_modifier: self.add_modifier | m, sub_modifier: self.sub_modifier & !m, ..self }
    }

    /// This style with the modifiers `m` turned off.
    pub fn remove_modifier(self, m: u16) -> (s: TextStyle)
        ensures
            s == without_modifier(self, m),
    {
        TextStyle { add_modifier: self.add_modifier & !m, sub_modifier: self.sub_modifier | m, ..self }
    }

    /// This style in bold.
    pub fn bold(self) -> (s: TextStyle)
        ensures
            s == with_modifier(self, BOLD),
    {
        self.add_modifier(BOLD)
    }

    /// This style dimmed.
    pub fn dim(self) -> (s: TextStyle)
        ensures
            s == with_modifier(self, DIM),
    {
        self.add_modifier(DIM)
    }

    /// `other` laid over this style (see `patched`).
    pub fn patch(self, other: TextStyle) -> (s: TextStyle)
        ensures
            s == patched(self, other),
    {
        TextStyle {
            fg: if other.fg.is_some() { other.fg } else { self.fg },
            bg: if other.bg.is_some() { other.bg } else { self.bg },
            underline_color: if other.underline_color.is_some() {
                other.underline_color
            } else {
                self.underline_color
            },
            add_modifier: (self.add_modifier & !other.sub_modifier) | other.add_modifier,
            sub_modifier: (self.sub_modifier & !other.add_modifier) | other.sub_modifier,
        }
    }
}

impl Default for TextStyle {
    fn default() -> (s: TextStyle)
        ensures
            s == plain_style(),
    {
        TextStyle::new()
    }
}

} // verus!
