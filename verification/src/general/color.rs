//! Colours, with eight bits to each channel.

use vstd::prelude::*;

verus! {

/// A colour with an alpha channel; 255 is full intensity.
#[derive(Debug, Copy, Clone, PartialEq, Eq, Structural)]
pub struct Color {
    pub r: u8,
    pub g: u8,
    pub b: u8,
    pub a: u8,
}

impl Color {
    pub fn new(r: u8, g: u8, b: u8, a: u8) -> (res: Color)
        ensures
            res == (Color { r, g, b, a }),
    {
        Color { r, g, b, a }
    }
}

/// The colours that have a name.
#[derive(Debug, Copy, Clone, PartialEq, Eq, Structural)]
pub enum COLORS {
    Red,
    White,
    Black,
    Green,
    Violet,
}

impl COLORS {
    /// The channels of the named colour; each is opaque.
    pub open spec fn channels(self) -> Color {
        match self {
            COLORS::Red => Color { r: 255, g: 0, b: 0, a: 255 },
            COLORS::Black => Color { r: 0, g: 0, b: 0, a: 255 },
            COLORS::White => Color { r: 255, g: 255, b: 255, a: 255 },
            COLORS::Green => Color { r: 0, g: 255, b: 0, a: 255 },
            COLORS::Violet => Color { r: 255, g: 0, b: 255, a: 255 },
        }
    }

    /// The named colour as channels.
    pub fn into_color(self) -> (res: Color)
        ensures
            res == self.channels(),
    {
        match self {
            COLORS::Red => Color::new(255, 0, 0, 255),
            COLORS::Black => Color::new(0, 0, 0, 255),
            COLORS::White => Color::new(255, 255, 255, 255),
            COLORS::Green => Color::new(0, 255, 0, 255),
            COLORS::Violet => Color::new(255, 0, 255, 255),
        }
    }
}

} // verus!
