//! The colour scheme: light or dark terminal background, and the styles
//! that each scheme gives the parts of the screen.

use vstd::prelude::*;

use crate::strings::{
    decimal, lemma_decimal_digits, lemma_last_field_whole, lemma_parse_decimal, last_field,
    last_field_str, opt_chars, parse_unsigned, parse_unsigned_str,
};
use crate::style::{plain, with_bg, with_fg, with_modifier, Color, Style, BOLD, DIM};

verus! {

/// Terminal colour scheme inferred from the environment.
#[derive(Clone, Copy, Debug, PartialEq, Eq, Structural)]
pub enum Theme {
    Light,
    Dark,
}

/// Whether the value of `COLORFGBG` names a light background: its last
/// `;`-separated field is a number of 0 to 255 that is 7, 15, or 250 and up.
pub open spec fn colorfgbg_light(value: Option<Seq<char>>) -> bool {
    match value {
        Some(v) => match parse_unsigned(last_field(v), 255) {
            Some(bg) => bg == 7 || bg == 15 || bg >= 250,
            None => false,
        },
        None => false,
    }
}

/// Whether the value of `COLORFGBG` (if it is set) names a light background.
pub fn colorfgbg_is_light(value: Option<String>) -> (r: bool)
    ensures
        r == colorfgbg_light(opt_chars(value)),
{
    match value {
        Some(v) => {
            let field = last_field_str(v.as_str());
            match parse_unsigned_str(field.as_str(), 255) {
                Some(bg) => bg == 7 || bg == 15 || bg >= 250,
                None => false,
            }
        },
        None => false,
    }
}

/// Detects a light or dark terminal background: light when the
/// `SN_LIGHT_THEME` override is set (`light_override`), else light when
/// `COLORFGBG` names a light background, else dark, which keeps the
/// terminal's default colours.
pub fn detect(light_override: bool, colorfgbg: Option<String>) -> (r: Theme)
    ensures
        r == (if light_override || colorfgbg_light(opt_chars(colorfgbg)) {
            Theme::Light
        } else {
            Theme::Dark
        }),
{
    if light_override {
        return Theme::Light;
    }
    if colorfgbg_is_light(colorfgbg) {
        return Theme::Light;
    }
    Theme::Dark
}

impl Theme {
    /// Primary readable text: black on light backgrounds; on dark ones the
    /// terminal's own colours, never a forced white.
    pub fn text_primary(self) -> (r: Style)
        ensures
            r == (match self {
                Theme::Light => with_fg(plain(), Color::Black),
                Theme::Dark => plain(),
            }),
    {
        match self {
            Theme::Light => Style::new().fg(Color::Black),
            Theme::Dark => Style::new(),
        }
    }

    /// Text inside popup dialogs.
    pub fn popup_text(self) -> (r: Style)
        ensures
            r == (match self {
                Theme::Light => with_bg(with_fg(plain(), Color::Black), Color::White),
                Theme::Dark => plain(),
            }),
    {
        match self {
            Theme::Light => Style::new().fg(Color::Black).bg(Color::White),
            Theme::Dark => Style::new(),
        }
    }

    /// The surface of popup dialogs.
    pub fn popup_surface(self) -> (r: Style)
        ensures
            r == (match self {
                Theme::Light => with_bg(with_fg(plain(), Color::Black), Color::White),
                Theme::Dark => plain(),
            }),
    {
        match self {
            Theme::Light => Style::new().fg(Color::Black).bg(Color::White),
            Theme::Dark => Style::new(),
        }
    }

    /// Secondary and hint text.
    pub fn text_secondary(self) -> (r: Style)
        ensures
            r == with_fg(plain(), Color::DarkGray),
    {
        Style::new().fg(Color::DarkGray)
    }

    /// Dimmed status-bar help text.
    pub fn text_dim(self) -> (r: Style)
        ensures
            r == with_modifier(plain(), DIM),
    {
        Style::new().add_modifier(DIM)
    }

    /// The selected row of a list: bold on blue, white text on light
    /// backgrounds and black on dark ones.
    pub fn selection(self) -> (r: Style)
        ensures
            r == (match self {
                Theme::Light => with_modifier(
                    with_fg(with_bg(plain(), Color::Blue), Color::White),
                    BOLD,
                ),
                Theme::Dark => with_modifier(
                    with_fg(with_bg(plain(), Color::Blue), Color::Black),
                    BOLD,
                ),
            }),
    {
        match self {
            Theme::Light => Style::new().bg(Color::Blue).fg(Color::White).add_modifier(BOLD),
            Theme::Dark => Style::new().bg(Color::Blue).fg(Color::Black).add_modifier(BOLD),
        }
    }

    /// The style of level 5 and 6 headings.
    pub fn heading_emphasis(self) -> (r: Style)
        ensures
            r == (match self {
                Theme::Light => with_modifier(with_fg(plain(), Color::Black), BOLD),
                Theme::Dark => with_modifier(plain(), BOLD),
            }),
    {
        match self {
            Theme::Light => Style::new().fg(Color::Black).add_modifier(BOLD),
            Theme::Dark => Style::new().add_modifier(BOLD),
        }
    }
}

/// A `COLORFGBG` whose last field is the background number `n` names a
/// light background exactly when `n` is 7, 15, or 250 and up.
pub proof fn lemma_light_backgrounds(prefix: Seq<char>, n: nat)
    requires
        n <= 255,
    ensures
        colorfgbg_light(Some(prefix + seq![';'] + decimal(n))) == (n == 7 || n == 15 || n >= 250),
        colorfgbg_light(Some(decimal(n))) == (n == 7 || n == 15 || n >= 250),
{
    lemma_decimal_digits(n);
    lemma_parse_decimal(n, 255);
    let d = decimal(n);
    assert forall|i: int| 0 <= i < d.len() implies d[i] != ';' by {
        assert('0' <= d[i] <= '9');
    }
    lemma_last_field_whole(d);
    let full = prefix + seq![';'] + d;
    assert(last_field(full) == d) by {
        lemma_last_field_suffix(prefix + seq![';'], d);
    }
}

proof fn lemma_last_field_suffix(a: Seq<char>, d: Seq<char>)
    requires
        a.len() > 0,
        a.last() == ';',
        forall|i: int| 0 <= i < d.len() ==> d[i] != ';',
    ensures
        last_field(a + d) == d,
    decreases d.len(),
{
    if d.len() == 0 {
        assert(a + d =~= a);
    } else {
        lemma_last_field_suffix(a, d.drop_last());
        assert((a + d).drop_last() =~= a + d.drop_last());
        assert(d.drop_last().push(d.last()) =~= d);
    }
}

} // verus!
