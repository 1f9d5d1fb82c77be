//! The style that a tag gives to the text directly below it.

use vstd::prelude::*;
use crate::colorscheme::{Color, ColorScheme};
use crate::text::str_eq;

verus! {

/// The size of ordinary text, in logical units.
pub const BASE_SIZE: u32 = 16;

/// How heavy the strokes of a font are.
#[derive(Clone, Copy, Debug, PartialEq, Eq, Structural)]
pub enum FontWeight {
    Normal,
    Bold,
}

/// The style that the font is switched to while a run of text is measured
/// and drawn.
#[derive(Clone, Copy, Debug, PartialEq, Eq, Structural)]
pub struct FontStyle {
    pub bold: bool,
    pub underline: bool,
}

impl FontStyle {
    /// The style of ordinary text.
    pub open spec fn normal() -> FontStyle {
        FontStyle { bold: false, underline: false }
    }
}

/// What a tag asks of the text directly below it.
#[derive(Clone, Copy, Debug, PartialEq, Eq, Structural)]
pub struct TagStyle {
    /// Whether the text is drawn at all.
    pub visible: bool,
    pub font_weight: FontWeight,
    pub underline: bool,
    /// The colour that replaces the scheme's text colour, if any.
    pub color_override: Option<Color>,
    /// The size in logical units that replaces the base size, if any.
    pub size_scale: Option<u32>,
}

/// Whether text directly below `tag` is never drawn.
pub open spec fn is_invisible(tag: Seq<char>) -> bool {
    ||| tag == "style"@
    ||| tag == "script"@
    ||| tag == "head"@
    ||| tag == "title"@
    ||| tag == "meta"@
    ||| tag == "link"@
    ||| tag == "img"@
    ||| tag == "br"@
}

/// Whether `tag` is read as a heading: every tag that begins with `h` is.
pub open spec fn is_heading(tag: Seq<char>) -> bool {
    tag.len() >= 1 && tag[0] == 'h'
}

/// The level of a heading: the digit that follows the `h` if that is one of
/// `1` to `6`, and 1 otherwise.
pub open spec fn heading_level(tag: Seq<char>) -> nat {
    if tag.len() >= 2 && '1' <= tag[1] <= '6' {
        (tag[1] as u32 - '0' as u32) as nat
    } else {
        1
    }
}

/// The size of a heading of the given level, in logical units.
pub open spec fn heading_scale(level: nat) -> u32 {
    if level == 2 {
        24
    } else if level == 3 {
        19
    } else if level == 4 {
        16
    } else if level == 5 {
        13
    } else if level == 6 {
        11
    } else {
        32
    }
}

/// The style of text that no rule applies to.
pub open spec fn plain_style() -> TagStyle {
    TagStyle {
        visible: true,
        font_weight: FontWeight::Normal,
        underline: false,
        color_override: None,
        size_scale: None,
    }
}

/// The style of the text directly below `tag`. The rules are tried in this
/// order: invisible tags, links, headings, everything else.
pub open spec fn style_of(tag: Seq<char>, scheme: ColorScheme) -> TagStyle {
    if is_invisible(tag) {
        TagStyle { visible: false, ..plain_style() }
    } else if tag == "a"@ {
        TagStyle { underline: true, color_override: Some(scheme.link), ..plain_style() }
    } else if is_heading(tag) {
        TagStyle {
            font_weight: FontWeight::Bold,
            size_scale: Some(heading_scale(heading_level(tag))),
            ..plain_style()
        }
    } else {
        plain_style()
    }
}

impl TagStyle {
    /// The font style that the text is measured and drawn in.
    pub open spec fn spec_font_style(self) -> FontStyle {
        FontStyle { bold: self.font_weight == FontWeight::Bold, underline: self.underline }
    }

    /// The height of the text in backend pixels.
    pub open spec fn spec_font_size(self, scaling_factor: u32) -> int {
        match self.size_scale {
            Some(scale) => scale * scaling_factor,
            None => BASE_SIZE * scaling_factor,
        }
    }

    /// The colour of the text under the given scheme.
    pub open spec fn spec_text_color(self, scheme: ColorScheme) -> Color {
        match self.color_override {
            Some(color) => color,
            None => scheme.text,
        }
    }

    /// The font style that the text is measured and drawn in.
    pub fn font_style(&self) -> (style: FontStyle)
        ensures
            style == self.spec_font_style(),
    {
        let bold = match self.font_weight {
            FontWeight::Bold => true,
            FontWeight::Normal => false,
        };
        FontStyle { bold, underline: self.underline }
    }

    /// The height of the text in backend pixels: its size in logical units
    /// times the scaling factor.
    pub fn font_size(&self, scaling_factor: u32) -> (size: u64)
        ensures
            size == self.spec_font_size(scaling_factor),
    {
        let scale: u32 = match self.size_scale {
            Some(scale) => scale,
            None => BASE_SIZE,
        };
        assert(scale * scaling_factor <= u64::MAX) by (nonlinear_arith)
            requires
                scale <= u32::MAX,
                scaling_factor <= u32::MAX,
        ;
        scale as u64 * scaling_factor as u64
    }

    /// The colour of the text under the given scheme.
    pub fn text_color(&self, scheme: &ColorScheme) -> (color: Color)
        ensures
            color == self.spec_text_color(*scheme),
    {
        match self.color_override {
            Some(color) => color,
            None => scheme.text,
        }
    }
}

/// Tells whether text directly below `tag` is never drawn.
pub fn is_invisible_tag(tag: &str) -> (invisible: bool)
    ensures
        invisible == is_invisible(tag@),
{
    str_eq(tag, "style") || str_eq(tag, "script") || str_eq(tag, "head") || str_eq(tag, "title")
        || str_eq(tag, "meta") || str_eq(tag, "link") || str_eq(tag, "img") || str_eq(tag, "br")
}

/// The size of a heading of the given level, in logical units.
fn heading_size(level: u32) -> (scale: u32)
    ensures
        scale == heading_scale(level as nat),
{
    if level == 2 {
        24
    } else if level == 3 {
        19
    } else if level == 4 {
        16
    } else if level == 5 {
        13
    } else if level == 6 {
        11
    } else {
        32
    }
}

/// The heading level that the character after the `h` stands for.
fn level_of_digit(d: char) -> (level: u32)
    ensures
        level == if '1' <= d <= '6' {
            d as u32 - '0' as u32
        } else {
            1
        },
{
    let n: u32 = d as u32;
    if 0x31 <= n && n <= 0x36 {
        n - 0x30
    } else {
        1
    }
}

/// Reads a tag as a heading: `None` if it is none, else its level.
fn heading_of(tag: &str) -> (level: Option<u32>)
    ensures
        level is Some == is_heading(tag@),
        level matches Some(n) ==> n == heading_level(tag@),
{
    let mut chars = tag.chars();
    let first = chars.next();
    match first {
        Some(c) => {
            if c != 'h' {
                return None;
            }
            let second = chars.next();
            match second {
                Some(d) => Some(level_of_digit(d)),
                None => Some(1),
            }
        },
        None => None,
    }
}

/// Resolves the style of the text directly below `tag`.
pub fn layout_style(tag: &str, scheme: &ColorScheme) -> (style: TagStyle)
    ensures
        style == style_of(tag@, *scheme),
{
    let plain = TagStyle {
        visible: true,
        font_weight: FontWeight::Normal,
        underline: false,
        color_override: None,
        size_scale: None,
    };
    if is_invisible_tag(tag) {
        TagStyle { visible: false, ..plain }
    } else if str_eq(tag, "a") {
        TagStyle { underline: true, color_override: Some(scheme.link), ..plain }
    } else {
        match heading_of(tag) {
            Some(level) => TagStyle {
                font_weight: FontWeight::Bold,
                size_scale: Some(heading_size(level)),
                ..plain
            },
            None => plain,
        }
    }
}

} // verus!
