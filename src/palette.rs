//! Named colors and the styles of calendar cells. The escape sequences are
//! produced by anstyle.
use crate::text::text_eq;
use anstyle::{AnsiColor, Color, Effects, RgbColor, Style};
use vstd::prelude::*;

verus! {

/// A 24-bit color.
#[derive(Clone, Copy, Debug, PartialEq, Eq, Structural)]
pub struct Rgb {
    pub r: u8,
    pub g: u8,
    pub b: u8,
}

/// Foreground colors that cells use.
#[derive(Clone, Copy, Debug, PartialEq, Eq, Structural)]
pub enum TextColor {
    Black,
}

/// Background and foreground colors plus text effects of one piece of text.
#[derive(Clone, Copy, Debug, PartialEq, Eq, Structural)]
pub struct CellStyle {
    pub bg: Option<Rgb>,
    pub fg: Option<TextColor>,
    pub strikethrough: bool,
    pub underline: bool,
    pub dimmed: bool,
}

/// The escape sequence that anstyle writes to switch a style on.
pub uninterp spec fn ansi_prefix_of(style: CellStyle) -> Seq<char>;

/// The escape sequence that switches every style off.
pub open spec fn ansi_reset() -> Seq<char> {
    "\x1b[0m"@
}

impl CellStyle {
    pub open spec fn spec_plain() -> CellStyle {
        CellStyle { bg: None, fg: None, strikethrough: false, underline: false, dimmed: false }
    }

    pub open spec fn is_plain(self) -> bool {
        self == CellStyle::spec_plain()
    }

    /// No colors and no effects.
    pub fn new() -> (r: CellStyle)
        ensures
            r == CellStyle::spec_plain(),
    {
        CellStyle { bg: None, fg: None, strikethrough: false, underline: false, dimmed: false }
    }
}

/// Relies on anstyle's `Style::render`: the escape sequence for the style
/// (a function of the style alone).
#[verifier::external_body]
pub(crate) fn render_style(style: &CellStyle) -> (r: String)
    ensures
        r@ == ansi_prefix_of(*style),
{
    let bg = match style.bg {
        Some(c) => Some(Color::Rgb(RgbColor(c.r, c.g, c.b))),
        None => None,
    };
    let fg = match style.fg {
        Some(TextColor::Black) => Some(Color::Ansi(AnsiColor::Black)),
        None => None,
    };
    let effects = Effects::new().set(Effects::STRIKETHROUGH, style.strikethrough).set(
        Effects::UNDERLINE,
        style.underline,
    ).set(Effects::DIMMED, style.dimmed);
    Style::new().bg_color(bg).fg_color(fg).effects(effects).render().to_string()
}

/// Relies on anstyle's `Style::render_reset`: `ESC[0m`, or nothing where the
/// style is plain.
#[verifier::external_body]
pub(crate) fn render_reset(style: &CellStyle) -> (r: String)
    ensures
        r@ == (if style.is_plain() { Seq::empty() } else { ansi_reset() }),
{
    let bg = match style.bg {
        Some(c) => Some(Color::Rgb(RgbColor(c.r, c.g, c.b))),
        None => None,
    };
    let fg = match style.fg {
        Some(TextColor::Black) => Some(Color::Ansi(AnsiColor::Black)),
        None => None,
    };
    let effects = Effects::new().set(Effects::STRIKETHROUGH, style.strikethrough).set(
        Effects::UNDERLINE,
        style.underline,
    ).set(Effects::DIMMED, style.dimmed);
    Style::new().bg_color(bg).fg_color(fg).effects(effects).render_reset().to_string()
}

/// A named color in full strength and dimmed (for weekends).
#[derive(Clone, Copy, Debug, PartialEq, Eq, Structural)]
pub struct ColorValue {
    pub normal: Rgb,
    pub dimmed: Rgb,
}

pub open spec fn background(c: Rgb) -> CellStyle {
    CellStyle { bg: Some(c), ..CellStyle::spec_plain() }
}

impl ColorValue {
    pub fn new(normal: Rgb, dimmed: Rgb) -> (r: ColorValue)
        ensures
            r.normal == normal && r.dimmed == dimmed,
    {
        ColorValue { normal, dimmed }
    }

    pub fn get_normal_style(&self) -> (r: CellStyle)
        ensures
            r == background(self.normal),
    {
        CellStyle { bg: Some(self.normal), ..CellStyle::new() }
    }

    pub fn get_dimmed_style(&self) -> (r: CellStyle)
        ensures
            r == background(self.dimmed),
    {
        CellStyle { bg: Some(self.dimmed), ..CellStyle::new() }
    }
}

pub open spec fn rgb(r: u8, g: u8, b: u8) -> Rgb {
    Rgb { r, g, b }
}

pub open spec fn cv(n: (u8, u8, u8), d: (u8, u8, u8)) -> ColorValue {
    ColorValue { normal: rgb(n.0, n.1, n.2), dimmed: rgb(d.0, d.1, d.2) }
}

/// The palette: each known color name with its normal and dimmed shade.
pub open spec fn palette_entry(name: Seq<char>) -> Option<ColorValue> {
    if name == "orange"@ { Some(cv((255, 143, 64), (178, 100, 45))) }
    else if name == "yellow"@ { Some(cv((230, 180, 80), (161, 126, 56))) }
    else if name == "green"@ { Some(cv((170, 217, 76), (119, 152, 53))) }
    else if name == "blue"@ { Some(cv((89, 194, 255), (62, 136, 179))) }
    else if name == "purple"@ { Some(cv((210, 166, 255), (147, 116, 179))) }
    else if name == "red"@ { Some(cv((240, 113, 120), (168, 79, 84))) }
    else if name == "cyan"@ { Some(cv((149, 230, 203), (104, 161, 142))) }
    else if name == "gray"@ { Some(cv((95, 99, 110), (67, 69, 77))) }
    else if name == "light_orange"@ { Some(cv((255, 180, 84), (179, 126, 59))) }
    else if name == "light_yellow"@ { Some(cv((249, 175, 79), (174, 123, 55))) }
    else if name == "light_green"@ { Some(cv((145, 179, 98), (102, 125, 69))) }
    else if name == "light_blue"@ { Some(cv((83, 189, 250), (58, 132, 175))) }
    else if name == "light_purple"@ { Some(cv((210, 166, 255), (147, 116, 179))) }
    else if name == "light_red"@ { Some(cv((234, 108, 115), (164, 76, 81))) }
    else if name == "light_cyan"@ { Some(cv((144, 225, 198), (101, 158, 139))) }
    else { None }
}

fn make(n: (u8, u8, u8), d: (u8, u8, u8)) -> (r: Option<ColorValue>)
    ensures
        r == Some(cv(n, d)),
{
    Some(ColorValue::new(Rgb { r: n.0, g: n.1, b: n.2 }, Rgb { r: d.0, g: d.1, b: d.2 }))
}

/// Whether colors are written out at all.
#[derive(Clone, Debug)]
pub struct ColorPalette {
    colors_enabled: bool,
}

/// The style of text printed in black.
pub open spec fn black_text_style() -> CellStyle {
    CellStyle { fg: Some(TextColor::Black), ..CellStyle::spec_plain() }
}

/// The style for a color name: its background (dimmed shade where asked),
/// plain for an unknown name or where colors are off.
pub open spec fn spec_style(enabled: bool, name: Seq<char>, dimmed: bool) -> CellStyle {
    if !enabled {
        CellStyle::spec_plain()
    } else {
        match palette_entry(name) {
            Some(v) => background(if dimmed { v.dimmed } else { v.normal }),
            None => CellStyle::spec_plain(),
        }
    }
}

impl ColorPalette {
    pub closed spec fn spec_enabled(self) -> bool {
        self.colors_enabled
    }

    /// The palette with colors on or off.
    pub closed spec fn spec_new(enabled: bool) -> ColorPalette {
        ColorPalette { colors_enabled: enabled }
    }

    pub proof fn lemma_spec_new(enabled: bool)
        ensures
            ColorPalette::spec_new(enabled).spec_enabled() == enabled,
    {
    }

    /// Colors are on unless the user asked for none (`no_color`).
    pub fn new(no_color: bool) -> (r: ColorPalette)
        ensures
            r == ColorPalette::spec_new(!no_color),
            r.spec_enabled() == !no_color,
    {
        ColorPalette { colors_enabled: !no_color }
    }

    pub fn are_colors_enabled(&self) -> (r: bool)
        ensures
            r == self.spec_enabled(),
    {
        self.colors_enabled
    }

    pub fn get_color_value(name: &str) -> (r: Option<ColorValue>)
        ensures
            r == palette_entry(name@),
    {
        if text_eq(name, "orange") { make((255, 143, 64), (178, 100, 45)) }
        else if text_eq(name, "yellow") { make((230, 180, 80), (161, 126, 56)) }
        else if text_eq(name, "green") { make((170, 217, 76), (119, 152, 53)) }
        else if text_eq(name, "blue") { make((89, 194, 255), (62, 136, 179)) }
        else if text_eq(name, "purple") { make((210, 166, 255), (147, 116, 179)) }
        else if text_eq(name, "red") { make((240, 113, 120), (168, 79, 84)) }
        else if text_eq(name, "cyan") { make((149, 230, 203), (104, 161, 142)) }
        else if text_eq(name, "gray") { make((95, 99, 110), (67, 69, 77)) }
        else if text_eq(name, "light_orange") { make((255, 180, 84), (179, 126, 59)) }
        else if text_eq(name, "light_yellow") { make((249, 175, 79), (174, 123, 55)) }
        else if text_eq(name, "light_green") { make((145, 179, 98), (102, 125, 69)) }
        else if text_eq(name, "light_blue") { make((83, 189, 250), (58, 132, 175)) }
        else if text_eq(name, "light_purple") { make((210, 166, 255), (147, 116, 179)) }
        else if text_eq(name, "light_red") { make((234, 108, 115), (164, 76, 81)) }
        else if text_eq(name, "light_cyan") { make((144, 225, 198), (101, 158, 139)) }
        else { None }
    }

    pub fn get_style(&self, color_name: &str, dimmed: bool) -> (r: CellStyle)
        ensures
            r == spec_style(self.spec_enabled(), color_name@, dimmed),
    {
        if !self.colors_enabled {
            return CellStyle::new();
        }
        match ColorPalette::get_color_value(color_name) {
            Some(v) => {
                if dimmed {
                    v.get_dimmed_style()
                } else {
                    v.get_normal_style()
                }
            },
            None => CellStyle::new(),
        }
    }

    pub fn black_text() -> (r: CellStyle)
        ensures
            r == black_text_style(),
    {
        CellStyle { fg: Some(TextColor::Black), ..CellStyle::new() }
    }
}

} // verus!
