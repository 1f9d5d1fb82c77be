//! Colours and the colour schemes a page can be painted in.

use vstd::prelude::*;

verus! {

/// A colour with eight bits per channel.
#[derive(Clone, Copy, Debug, PartialEq, Eq, Structural)]
pub struct Color {
    pub r: u8,
    pub g: u8,
    pub b: u8,
    pub a: u8,
}

impl Color {
    /// The fully opaque colour with the given red, green and blue parts.
    pub fn rgb(r: u8, g: u8, b: u8) -> (color: Color)
        ensures
            color == Color::opaque(r, g, b),
    {
        Color { r, g, b, a: 255 }
    }

    pub open spec fn opaque(r: u8, g: u8, b: u8) -> Color {
        Color { r, g, b, a: 255 }
    }
}

/// The three colours that layout paints with.
#[derive(Clone, Copy, Debug, PartialEq, Eq, Structural)]
pub struct ColorScheme {
    pub background: Color,
    pub text: Color,
    pub link: Color,
}

impl ColorScheme {
    /// Black text and blue links on white.
    pub open spec fn standard() -> ColorScheme {
        ColorScheme {
            background: Color::opaque(255, 255, 255),
            text: Color::opaque(0, 0, 0),
            link: Color::opaque(0, 0, 238),
        }
    }

    /// The dark "Catppuccin" palette.
    pub open spec fn catppuccin() -> ColorScheme {
        ColorScheme {
            background: Color::opaque(30, 30, 46),
            text: Color::opaque(217, 224, 238),
            link: Color::opaque(245, 224, 220),
        }
    }
}

impl Default for ColorScheme {
    fn default() -> (scheme: ColorScheme)
        ensures
            scheme == ColorScheme::standard(),
    {
        ColorScheme {
            background: Color::rgb(255, 255, 255),
            text: Color::rgb(0, 0, 0),
            link: Color::rgb(0, 0, 238),
        }
    }
}

/// The colour schemes that ship with the engine.
#[derive(Debug, Copy, Clone, PartialEq, Eq, PartialOrd, Ord, Structural)]
pub enum DefaultColorSchemes {
    Standard,
    Catppuccin,
}

impl DefaultColorSchemes {
    /// The palette that a scheme stands for.
    pub open spec fn palette(self) -> ColorScheme {
        match self {
            DefaultColorSchemes::Standard => ColorScheme::standard(),
            DefaultColorSchemes::Catppuccin => ColorScheme::catppuccin(),
        }
    }

    /// The colours of this scheme.
    pub fn value(&self) -> (scheme: ColorScheme)
        ensures
            scheme == self.palette(),
    {
        match self {
            DefaultColorSchemes::Standard => ColorScheme::default(),
            DefaultColorSchemes::Catppuccin => ColorScheme {
                background: Color::rgb(30, 30, 46),
                text: Color::rgb(217, 224, 238),
                link: Color::rgb(245, 224, 220),
            },
        }
    }
}

} // verus!
