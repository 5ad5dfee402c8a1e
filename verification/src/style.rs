//! Text styles: colours and modifier bits, as the terminal renders them.

use vstd::prelude::*;

verus! {

/// A terminal colour.
#[derive(Clone, Copy, Debug, PartialEq, Eq, Structural)]
pub enum Color {
    Reset,
    Black,
    Red,
    Green,
    Yellow,
    Blue,
    Magenta,
    Cyan,
    Gray,
    DarkGray,
    LightRed,
    LightGreen,
    LightYellow,
    LightBlue,
    LightMagenta,
    LightCyan,
    White,
    Rgb(u8, u8, u8),
    Indexed(u8),
}

/// Bold text.
pub const BOLD: u16 = 0x0001;
/// Dimmed text.
pub const DIM: u16 = 0x0002;
/// Italic text.
pub const ITALIC: u16 = 0x0004;
/// Underlined text.
pub const UNDERLINED: u16 = 0x0008;
/// Slowly blinking text.
pub const SLOW_BLINK: u16 = 0x0010;
/// Rapidly blinking text.
pub const RAPID_BLINK: u16 = 0x0020;
/// Reversed colours.
pub const REVERSED: u16 = 0x0040;
/// Hidden text.
pub const HIDDEN: u16 = 0x0080;
/// Crossed-out text.
pub const CROSSED_OUT: u16 = 0x0100;

/// A style: optional foreground and background colours, and the modifier
/// bits it adds and removes.
#[derive(Clone, Copy, Debug, PartialEq, Eq, Structural)]
pub struct Style {
    pub fg: Option<Color>,
    pub bg: Option<Color>,
    pub add_modifier: u16,
    pub sub_modifier: u16,
}

/// The style that sets nothing.
pub open spec fn plain() -> Style {
    Style { fg: None, bg: None, add_modifier: 0, sub_modifier: 0 }
}

/// `s` with foreground colour `c`.
pub open spec fn with_fg(s: Style, c: Color) -> Style {
    Style { fg: Some(c), ..s }
}

/// `s` with background colour `c`.
pub open spec fn with_bg(s: Style, c: Color) -> Style {
    Style { bg: Some(c), ..s }
}

/// `s` with the modifier bits `m` added (and no longer removed).
pub open spec fn with_modifier(s: Style, m: u16) -> Style {
    Style { add_modifier: s.add_modifier | m, sub_modifier: s.sub_modifier & !m, ..s }
}

impl Style {
    /// The style that sets nothing.
    pub fn new() -> (r: Style)
        ensures
            r == plain(),
    {
        Style { fg: None, bg: None, add_modifier: 0, sub_modifier: 0 }
    }

    /// Sets the foreground colour.
    pub fn fg(self, c: Color) -> (r: Style)
        ensures
            r == with_fg(self, c),
    {
        Style { fg: Some(c), ..self }
    }

    /// Sets the background colour.
    pub fn bg(self, c: Color) -> (r: Style)
        ensures
            r == with_bg(self, c),
    {
        Style { bg: Some(c), ..self }
    }

    /// Adds the modifier bits `m`.
    pub fn add_modifier(self, m: u16) -> (r: Style)
        ensures
            r == with_modifier(self, m),
    {
        Style { add_modifier: self.add_modifier | m, sub_modifier: self.sub_modifier & !m, ..self }
    }

    /// Whether the style adds every bit of `m`.
    pub open spec fn has_modifier(self, m: u16) -> bool {
        self.add_modifier & m == m
    }
}

/// Adding modifier bits makes the style carry them, and leaves every bit it
/// carried before.
pub proof fn lemma_add_modifier_keeps(s: Style, m: u16, k: u16)
    requires
        s.has_modifier(k),
    ensures
        with_modifier(s, m).has_modifier(m),
        with_modifier(s, m).has_modifier(k),
{
    let a = s.add_modifier;
    assert((a | m) & m == m) by (bit_vector);
    assert(a & k == k ==> (a | m) & k == k) by (bit_vector);
}

} // verus!
